use llnzy::editor_viewport::{
    clamp_scroll_line, horizontal_scroll_col, scroll_target_for_cursor, syntax_line_range,
    visible_window_end, window_doc_lines,
};
use llnzy::editor_wrap::compute_wrap_rows;

#[test]
fn scroll_line_stays_within_the_rows() {
    assert_eq!(clamp_scroll_line(7, 5), 4);
    assert_eq!(clamp_scroll_line(2, 5), 2);
    assert_eq!(clamp_scroll_line(3, 0), 0);
    assert_eq!(clamp_scroll_line(3, 1), 0);
}

#[test]
fn scrolling_follows_the_cursor() {
    assert_eq!(scroll_target_for_cursor(3, 10, 20), Some(3));
    assert_eq!(scroll_target_for_cursor(15, 10, 20), None);
    assert_eq!(scroll_target_for_cursor(29, 10, 20), None);
    assert_eq!(scroll_target_for_cursor(30, 10, 20), Some(11));
    assert_eq!(scroll_target_for_cursor(40, 0, 1), Some(40));
}

#[test]
fn horizontal_scroll_keeps_a_margin() {
    assert_eq!(horizontal_scroll_col(5, 9, 80, true), 0);
    assert_eq!(horizontal_scroll_col(10, 3, 80, false), 3);
    assert_eq!(horizontal_scroll_col(0, 75, 80, false), 0);
    assert_eq!(horizontal_scroll_col(0, 76, 80, false), 0);
    assert_eq!(horizontal_scroll_col(0, 77, 80, false), 1);
    assert_eq!(horizontal_scroll_col(2, 9, 3, false), 9);
}

#[test]
fn drawn_window_and_highlight_range() {
    assert_eq!(visible_window_end(10, 20, 100), 32);
    assert_eq!(visible_window_end(90, 20, 100), 100);
    let rows = compute_wrap_rows(&[0, 1, 2], &[25, 3, 12], 10);
    assert_eq!(rows.len(), 6);
    assert_eq!(window_doc_lines(&rows, 1, 6), vec![0, 1, 2]);
    assert_eq!(window_doc_lines(&rows, 0, 3), vec![0]);
    assert_eq!(window_doc_lines(&rows, 2, 2), Vec::<usize>::new());
    assert_eq!(syntax_line_range(&[4, 5, 9]), (4, 10));
    assert_eq!(syntax_line_range(&[]), (0, 0));
}
