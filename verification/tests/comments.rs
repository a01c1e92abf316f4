use llnzy::comments::{
    comment_style, line_indent, save_failed_status, selected_line_range,
    toggle_line_comments_as_command,
};
use llnzy::editor::{BufferView, Position};

fn lines(text: &str) -> Vec<String> {
    text.split('\n').map(|l| l.to_string()).collect()
}

#[test]
fn comment_styles_follow_language_then_extension() {
    assert_eq!(comment_style(None, Some("main.rs")).line, Some("//"));
    assert_eq!(comment_style(None, Some("main.rs")).block, Some(("/*", "*/")));
    assert_eq!(comment_style(None, Some("script.py")).line, Some("#"));
    assert_eq!(comment_style(None, Some("script.py")).block, None);
    assert_eq!(comment_style(None, Some("query.sql")).line, Some("--"));
    assert_eq!(comment_style(None, Some("script.rb")).line, Some("#"));
    assert_eq!(comment_style(None, None).line, Some("//"));
}

#[test]
fn toggling_line_comments_twice_restores_the_lines() {
    let before = lines("fn main() {}\nlet x = 1;");
    let mut text = before.clone();
    assert!(toggle_line_comments_as_command(&mut text, 0, 1, "//"));
    assert_eq!(text, lines("// fn main() {}\n// let x = 1;"));
    assert!(toggle_line_comments_as_command(&mut text, 0, 1, "//"));
    assert_eq!(text, before);
}

#[test]
fn line_comments_use_the_language_prefix() {
    let mut python = lines("print('hi')");
    assert!(toggle_line_comments_as_command(&mut python, 0, 0, "#"));
    assert_eq!(python, lines("# print('hi')"));
    let mut sql = lines("select * from users;");
    assert!(toggle_line_comments_as_command(&mut sql, 0, 0, "--"));
    assert_eq!(sql, lines("-- select * from users;"));
}

#[test]
fn indentation_and_status_helpers() {
    assert_eq!(line_indent("    let x;"), "    ");
    assert_eq!(line_indent("\tx"), "\t");
    assert_eq!(save_failed_status("disk full"), "Save failed: disk full");
}

#[test]
fn selection_decides_the_line_range() {
    let mut view = BufferView::default();
    view.cursor.pos = Position::new(1, 10);
    view.cursor.anchor = Some(Position::new(0, 0));
    assert_eq!(selected_line_range(&view, 2), (0, 1));
    view.cursor.pos = Position::new(2, 0);
    assert_eq!(selected_line_range(&view, 5), (0, 1));
    view.cursor.anchor = None;
    view.cursor.pos = Position::new(9, 0);
    assert_eq!(selected_line_range(&view, 3), (2, 2));
}

#[test]
fn extension_is_read_after_the_last_dot_of_the_file_name() {
    assert_eq!(comment_style(None, Some("backup/archive.tar.SQL")).line, Some("--"));
    assert_eq!(comment_style(None, Some("src.py/readme")).line, Some("//"));
    assert_eq!(comment_style(None, Some("/home/me/.py")).line, Some("//"));
    assert_eq!(comment_style(None, Some("notes.")).line, Some("//"));
    assert_eq!(comment_style(None, Some("page.HTM")).line, None);
    assert_eq!(comment_style(None, Some("page.HTM")).block, Some(("<!--", "-->")));
}

#[test]
fn toggling_twice_restores_indented_lines_with_blanks() {
    let before = lines("  fn f() {\n\n\tlet y = 2;\n  }");
    let mut text = before.clone();
    assert!(toggle_line_comments_as_command(&mut text, 0, 3, "\u{a0}#"));
    assert_eq!(text, lines("  \u{a0}# fn f() {\n\n\t\u{a0}# let y = 2;\n  \u{a0}# }"));
    assert!(toggle_line_comments_as_command(&mut text, 0, 3, "\u{a0}#"));
    assert_eq!(text, before);
}
