use llnzy::editor_paint::{indent_level, indentation_columns, IndentStyle};
use llnzy::editor_status::{editor_status_text, KeybindingPreset, StatusInput, VimMode};
use llnzy::editor_wrap::{compute_wrap_rows, wrap_row_for_cursor, WrapRow};

#[test]
fn indentation_columns_counts_spaces() {
    assert_eq!(
        indentation_columns("        value", IndentStyle::Spaces(4)),
        8
    );
}

#[test]
fn indentation_columns_counts_tabs_as_indent_width() {
    assert_eq!(indentation_columns("\t\tvalue", IndentStyle::Spaces(4)), 8);
    assert_eq!(indentation_columns("\t\tvalue", IndentStyle::Tabs), 2);
}

#[test]
fn indent_level_uses_detected_style_width() {
    assert_eq!(indent_level("    value", IndentStyle::Spaces(2)), 2);
    assert_eq!(indent_level("    value", IndentStyle::Spaces(4)), 1);
    assert_eq!(indent_level("\t\tvalue", IndentStyle::Tabs), 2);
}

#[test]
fn indent_level_ignores_non_indented_lines() {
    assert_eq!(indent_level("value", IndentStyle::Spaces(4)), 0);
}

#[test]
fn indentation_mixes_tabs_and_spaces_and_stops_at_text() {
    assert_eq!(indentation_columns(" \t x \t", IndentStyle::Spaces(4)), 6);
    assert_eq!(indentation_columns("   ", IndentStyle::Spaces(0)), 3);
    assert_eq!(indentation_columns("\t", IndentStyle::Spaces(0)), 1);
    assert_eq!(indent_level("     x", IndentStyle::Spaces(2)), 2);
    assert_eq!(indent_level("", IndentStyle::Tabs), 0);
}

#[test]
fn wrap_row_for_cursor_uses_last_row_at_line_end() {
    let line_lens = ["abcdefghijklmnopqrstuvwxy".chars().count()];
    let rows = compute_wrap_rows(&[0], &line_lens, 10);

    assert_eq!(wrap_row_for_cursor(&rows, 0, line_lens[0]), 2);
}

#[test]
fn wrap_rows_tile_lines_with_at_least_ten_columns() {
    let rows = compute_wrap_rows(&[0, 2, 3], &[25, 0, 0, 12], 4);
    let expected = vec![
        WrapRow { doc_line: 0, col_start: 0, col_end: 10, is_first: true },
        WrapRow { doc_line: 0, col_start: 10, col_end: 20, is_first: false },
        WrapRow { doc_line: 0, col_start: 20, col_end: 25, is_first: false },
        WrapRow { doc_line: 2, col_start: 0, col_end: 0, is_first: true },
        WrapRow { doc_line: 3, col_start: 0, col_end: 10, is_first: true },
        WrapRow { doc_line: 3, col_start: 10, col_end: 12, is_first: false },
    ];
    assert_eq!(rows, expected);
    assert_eq!(wrap_row_for_cursor(&rows, 0, 0), 0);
    assert_eq!(wrap_row_for_cursor(&rows, 0, 15), 1);
    assert_eq!(wrap_row_for_cursor(&rows, 2, 0), 3);
    assert_eq!(wrap_row_for_cursor(&rows, 3, 11), 5);
    assert_eq!(wrap_row_for_cursor(&rows, 9, 0), 5);
    assert_eq!(wrap_row_for_cursor(&[], 0, 0), 0);
}

fn status_input<'a>() -> StatusInput<'a> {
    StatusInput {
        line: 4,
        col: 0,
        line_count: 120,
        indent_style: IndentStyle::Spaces(4),
        word_wrap: false,
        modified: true,
        diagnostic_count: 0,
        lsp_status: "",
        vim_mode: None,
        keybinding_preset: KeybindingPreset::VsCode,
        large_file_label: None,
    }
}

#[test]
fn status_text_reports_position_and_state() {
    assert_eq!(
        editor_status_text(&status_input()),
        "Ln 5, Col 1  |  120 lines  |  Spaces: 4  |  No wrap  |  Modified"
    );
}

#[test]
fn status_text_appends_optional_parts() {
    let input = StatusInput {
        indent_style: IndentStyle::Tabs,
        word_wrap: true,
        modified: false,
        diagnostic_count: 1,
        lsp_status: "rust-analyzer",
        vim_mode: Some(VimMode::Insert),
        keybinding_preset: KeybindingPreset::Emacs,
        large_file_label: Some("Large file: syntax, minimap, live LSP limited"),
        ..status_input()
    };
    assert_eq!(
        editor_status_text(&input),
        "Ln 5, Col 1  |  120 lines  |  Tabs  |  Wrap  |  Saved  |  1 diagnostic  |  rust-analyzer  |  VIM INSERT  |  Emacs  |  Large file: syntax, minimap, live LSP limited"
    );
    let plural = StatusInput {
        diagnostic_count: 12,
        keybinding_preset: KeybindingPreset::Vim,
        ..status_input()
    };
    assert!(editor_status_text(&plural).ends_with("Modified  |  12 diagnostics"));
}

#[test]
fn status_text_names_large_file_degradation() {
    let input = StatusInput {
        line: 0,
        line_count: 100_001,
        large_file_label: Some("Large file: syntax, minimap, live LSP limited"),
        ..status_input()
    };
    let status = editor_status_text(&input);
    assert!(status.contains("Large file: syntax, minimap, live LSP limited"));
    assert!(status.starts_with("Ln 1, Col 1  |  100001 lines"));
}
