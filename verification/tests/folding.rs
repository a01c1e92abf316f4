use llnzy::editor::{BufferView, KeyAction, Position};
use llnzy::editor_folding::{
    add_fold_range, apply_folding_actions, best_fold_range_containing, best_fold_range_starting_at,
    is_range_folded, snap_cursor_to_visible_line, toggle_fold_range, top_level_fold_ranges, unfold_at_line, visible_doc_lines,
    visible_index_for_doc_line, FoldRange,
};

fn range(start_line: usize, end_line: usize) -> FoldRange {
    FoldRange {
        start_line,
        end_line,
    }
}

#[test]
fn visible_doc_lines_skips_folded_interiors() {
    let folds = vec![FoldRange {
        start_line: 1,
        end_line: 3,
    }];
    assert_eq!(visible_doc_lines(6, &folds), vec![0, 1, 4, 5]);
}

#[test]
fn visible_index_for_hidden_line_snaps_to_fold_start() {
    let visible = vec![0, 1, 4, 5];
    assert_eq!(visible_index_for_doc_line(&visible, 3), 1);
}

#[test]
fn fold_current_uses_innermost_range() {
    let mut view = BufferView::default();
    view.cursor.pos = Position::new(3, 0);
    let ranges = vec![
        FoldRange {
            start_line: 0,
            end_line: 10,
        },
        FoldRange {
            start_line: 2,
            end_line: 4,
        },
    ];
    let action = KeyAction {
        fold_current: true,
        ..KeyAction::default()
    };
    apply_folding_actions(&action, &mut view, &ranges, 12);
    assert_eq!(
        view.folded_ranges,
        vec![FoldRange {
            start_line: 2,
            end_line: 4
        }]
    );
}

#[test]
fn nested_folds_hide_only_their_interiors_once() {
    let folds = vec![range(0, 5), range(2, 3)];
    assert_eq!(visible_doc_lines(8, &folds), vec![0, 6, 7]);
    assert_eq!(visible_index_for_doc_line(&[0, 6, 7], 4), 0);
    assert_eq!(visible_index_for_doc_line(&[0, 6, 7], 7), 2);
}

#[test]
fn toggling_a_fold_twice_restores_the_folds() {
    let mut folds = vec![range(1, 4)];
    toggle_fold_range(&mut folds, range(6, 9));
    assert!(is_range_folded(&folds, 6));
    toggle_fold_range(&mut folds, range(6, 9));
    assert_eq!(folds, vec![range(1, 4)]);
}

#[test]
fn add_fold_range_skips_repeats_and_empty_ranges() {
    let mut folds = Vec::new();
    add_fold_range(&mut folds, range(5, 7));
    add_fold_range(&mut folds, range(1, 2));
    add_fold_range(&mut folds, range(5, 7));
    add_fold_range(&mut folds, range(3, 3));
    assert_eq!(folds, vec![range(5, 7), range(1, 2)]);
    unfold_at_line(&mut folds, 5);
    assert_eq!(folds, vec![range(1, 2)]);
}

#[test]
fn innermost_and_top_level_ranges() {
    let ranges = vec![range(0, 10), range(2, 4), range(6, 8)];
    assert_eq!(best_fold_range_containing(&ranges, 3), Some(range(2, 4)));
    assert_eq!(best_fold_range_containing(&ranges, 5), Some(range(0, 10)));
    assert_eq!(best_fold_range_containing(&ranges, 11), None);
    assert_eq!(top_level_fold_ranges(&ranges), vec![range(0, 10)]);
}

#[test]
fn fold_all_and_unfold_all_keys() {
    let mut view = BufferView::default();
    let ranges = vec![range(0, 10), range(2, 4), range(12, 14)];
    let fold_all = KeyAction {
        fold_all: true,
        ..KeyAction::default()
    };
    apply_folding_actions(&fold_all, &mut view, &ranges, 20);
    assert_eq!(view.folded_ranges, vec![range(0, 10), range(12, 14)]);
    let unfold_all = KeyAction {
        unfold_all: true,
        ..KeyAction::default()
    };
    apply_folding_actions(&unfold_all, &mut view, &ranges, 20);
    assert!(view.folded_ranges.is_empty());
}

#[test]
fn cursor_inside_a_fold_snaps_to_its_start() {
    let mut view = BufferView::default();
    view.folded_ranges = vec![range(2, 5)];
    view.cursor.pos = Position::new(4, 9);
    view.cursor.anchor = Some(Position::new(0, 0));
    snap_cursor_to_visible_line(&mut view, &[3, 3, 6, 8, 8, 8]);
    assert_eq!(view.cursor.pos, Position::new(2, 6));
    assert!(!view.cursor.has_selection());

    view.cursor.pos = Position::new(2, 1);
    view.cursor.anchor = Some(Position::new(0, 0));
    snap_cursor_to_visible_line(&mut view, &[3, 3, 6, 8, 8, 8]);
    assert_eq!(view.cursor.pos, Position::new(2, 1));
    assert!(view.cursor.has_selection());
}

#[test]
fn narrowest_fold_starting_at_a_line() {
    let ranges = vec![range(2, 9), range(2, 4), range(3, 4), range(2, 4)];
    assert_eq!(best_fold_range_starting_at(&ranges, 2), Some(range(2, 4)));
    assert_eq!(best_fold_range_starting_at(&ranges, 5), None);
}
