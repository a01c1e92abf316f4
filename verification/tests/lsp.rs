use llnzy::editor::{BufferId, Position};
use llnzy::lsp_results::{
    active_request_is_current, apply_completion_result, apply_hover_result, apply_list_result,
    buffer_request_still_exists, clear_completion_for_closed_request, decide_pending_request,
    format_edit_order, health_check_due, lsp_status_text, rename_status, FormatEdit,
    LspUiState, PendingPoll, PendingRequestPoll,
};
use llnzy::workbench::{CompletionItem, CompletionState};

fn empty_state() -> LspUiState<&'static str> {
    LspUiState {
        hover_text: None,
        hover_pos: Some(Position::new(1, 2)),
        completion: None,
        popup: None,
        popup_selected: 3,
        status_msg: Some("old".to_string()),
    }
}

fn item(label: &str) -> CompletionItem {
    CompletionItem {
        label: label.to_string(),
        insert_text: None,
    }
}

#[test]
fn pending_requests_are_kept_only_while_needed() {
    let id = BufferId(3);
    assert!(matches!(
        decide_pending_request(id, PendingPoll::Ready(5u32), false),
        PendingRequestPoll::Ready(BufferId(3), 5)
    ));
    assert!(matches!(
        decide_pending_request::<u32>(id, PendingPoll::Closed, true),
        PendingRequestPoll::Closed(BufferId(3))
    ));
    assert!(matches!(
        decide_pending_request::<u32>(id, PendingPoll::Empty, true),
        PendingRequestPoll::Pending(BufferId(3))
    ));
    assert!(matches!(
        decide_pending_request::<u32>(id, PendingPoll::Empty, false),
        PendingRequestPoll::Dropped
    ));
    assert!(active_request_is_current(Some(id), id));
    assert!(!active_request_is_current(Some(BufferId(4)), id));
    assert!(!active_request_is_current(None, id));
    assert!(buffer_request_still_exists(&[BufferId(1), id], id));
    assert!(!buffer_request_still_exists(&[BufferId(1)], id));
}

#[test]
fn hover_answers_apply_only_to_the_active_buffer() {
    let mut state = empty_state();
    assert!(!apply_hover_result(&mut state, Some(BufferId(2)), BufferId(1), Some("doc".to_string())));
    assert_eq!(state.hover_text, None);
    assert!(apply_hover_result(&mut state, Some(BufferId(1)), BufferId(1), Some("doc".to_string())));
    assert_eq!(state.hover_text.as_deref(), Some("doc"));
    assert_eq!(state.hover_pos, Some(Position::new(1, 2)));
    assert!(apply_hover_result(&mut state, Some(BufferId(1)), BufferId(1), None));
    assert_eq!(state.hover_pos, None);
}

#[test]
fn completion_answers_fill_or_close_the_popup() {
    let mut state = empty_state();
    state.completion = Some(CompletionState {
        items: Vec::new(),
        selected: 0,
        filter: "pu".to_string(),
        trigger_line: 4,
        trigger_col: 7,
    });
    assert!(apply_completion_result(&mut state, Some(BufferId(1)), BufferId(1), vec![item("push")]));
    let completion = state.completion.as_ref().unwrap();
    assert_eq!(completion.items, vec![item("push")]);
    assert_eq!(completion.filter, "pu");
    assert_eq!(completion.trigger_col, 7);
    assert!(!clear_completion_for_closed_request(&mut state, Some(BufferId(9)), BufferId(1)));
    assert!(state.completion.is_some());
    assert!(apply_completion_result(&mut state, Some(BufferId(1)), BufferId(1), Vec::new()));
    assert!(state.completion.is_none());
}

#[test]
fn list_answers_open_popups_or_report_emptiness() {
    let mut state = empty_state();
    assert!(apply_list_result(&mut state, Some(BufferId(1)), BufferId(1), vec![], "No references found"));
    assert_eq!(state.status_msg.as_deref(), Some("No references found"));
    assert_eq!(state.popup, None);
    assert!(apply_list_result(&mut state, Some(BufferId(1)), BufferId(1), vec!["a", "b"], "none"));
    assert_eq!(state.popup, Some(vec!["a", "b"]));
    assert_eq!(state.popup_selected, 0);
    assert_eq!(state.status_msg, None);
    assert!(!apply_list_result(&mut state, None, BufferId(1), vec!["c"], "none"));
    assert_eq!(state.popup, Some(vec!["a", "b"]));
}

#[test]
fn status_texts() {
    assert_eq!(rename_status(0), "Rename returned no changes");
    assert_eq!(rename_status(1), "Renamed: 1 occurrence");
    assert_eq!(rename_status(14), "Renamed: 14 occurrences");
    assert_eq!(lsp_status_text(""), "");
    assert_eq!(lsp_status_text("ready"), "LSP: ready");
    assert!(health_check_due(5));
    assert!(!health_check_due(4));
}

fn edit(line: u32, col: u32, text: &str) -> FormatEdit {
    FormatEdit {
        start_line: line,
        start_col: col,
        end_line: line,
        end_col: col + 1,
        new_text: text.to_string(),
    }
}

#[test]
fn format_edits_apply_from_the_end_and_keep_ties_in_order() {
    let ordered = format_edit_order(vec![
        edit(1, 4, "a"),
        edit(3, 0, "b"),
        edit(1, 9, "c"),
        edit(3, 0, "d"),
        edit(0, 0, "e"),
    ]);
    let texts: Vec<&str> = ordered.iter().map(|e| e.new_text.as_str()).collect();
    assert_eq!(texts, ["b", "d", "c", "a", "e"]);
    assert!(format_edit_order(Vec::new()).is_empty());
}

#[test]
fn plain_answers_are_stored_only_for_the_active_buffer() {
    let mut hints: Vec<u32> = vec![1];
    assert!(!llnzy::lsp_results::apply_if_current(&mut hints, Some(BufferId(2)), BufferId(1), vec![7, 8]));
    assert_eq!(hints, vec![1]);
    assert!(llnzy::lsp_results::apply_if_current(&mut hints, Some(BufferId(1)), BufferId(1), vec![7, 8]));
    assert_eq!(hints, vec![7, 8]);
}

#[test]
fn document_symbols_clear_the_filter_when_shown() {
    let mut state = empty_state();
    let mut filter = "ma".to_string();
    assert!(llnzy::lsp_results::apply_document_symbols_result(
        &mut state,
        &mut filter,
        Some(BufferId(1)),
        BufferId(1),
        vec![]
    ));
    assert_eq!(filter, "ma");
    assert_eq!(state.status_msg.as_deref(), Some("No symbols found"));
    assert!(llnzy::lsp_results::apply_document_symbols_result(
        &mut state,
        &mut filter,
        Some(BufferId(1)),
        BufferId(1),
        vec!["main"]
    ));
    assert_eq!(filter, "");
    assert_eq!(state.popup, Some(vec!["main"]));
}
