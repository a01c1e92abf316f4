use llnzy::editor::MarkdownViewMode;
use llnzy::markdown_inline::inline_display_text;
use llnzy::markdown_parse::{image, parse_markdown_blocks, MarkdownBlock};
use llnzy::markdown_preview::{
    is_markdown_path, markdown_preview_scroll_salt, resolve_local_image_path,
};

#[test]
fn detects_markdown_extensions_case_insensitively() {
    assert!(is_markdown_path("README.md"));
    assert!(is_markdown_path("notes.MDX"));
    assert!(is_markdown_path("post.markdown"));
    assert!(!is_markdown_path("main.rs"));
    assert!(!is_markdown_path("Makefile"));
}

#[test]
fn markdown_mode_cycles_source_preview_split() {
    assert_eq!(MarkdownViewMode::Source.cycle(), MarkdownViewMode::Preview);
    assert_eq!(MarkdownViewMode::Preview.cycle(), MarkdownViewMode::Split);
    assert_eq!(MarkdownViewMode::Split.cycle(), MarkdownViewMode::Source);
}

#[test]
fn preview_scroll_salt_tracks_markdown_file_path() {
    let left = Some("/tmp/left.md");
    let right = Some("/tmp/right.md");

    assert_ne!(
        markdown_preview_scroll_salt(left),
        markdown_preview_scroll_salt(right)
    );
    assert_eq!(
        markdown_preview_scroll_salt(left),
        "/tmp/left.md".to_string()
    );
}

#[test]
fn scroll_salt_of_an_unsaved_buffer_is_untitled() {
    assert_eq!(markdown_preview_scroll_salt(None), "untitled");
}

#[test]
fn inline_display_text_preserves_readable_link_targets() {
    assert_eq!(
        inline_display_text("See [docs](https://example.com) for `code`."),
        "See docs (https://example.com) for code."
    );
}

#[test]
fn markdown_cycle_returns_after_three_steps() {
    for mode in [
        MarkdownViewMode::Source,
        MarkdownViewMode::Preview,
        MarkdownViewMode::Split,
    ] {
        assert_eq!(mode.cycle().cycle().cycle(), mode);
        assert_ne!(mode.cycle(), mode);
    }
}

#[test]
fn remote_and_anchor_images_are_not_resolved() {
    assert_eq!(resolve_local_image_path(Some("/r"), "data:image/png;base64,AA"), None);
    assert_eq!(resolve_local_image_path(Some("/r"), "#top"), None);
    assert_eq!(resolve_local_image_path(Some("/r"), "http://x/y.png"), None);
    assert_eq!(
        resolve_local_image_path(None, "/abs/pic.png"),
        Some("/abs/pic.png".to_string())
    );
}

#[test]
fn parser_handles_headings_rules_quotes_and_paragraphs() {
    let blocks = parse_markdown_blocks("# Title\n\n---\n> quoted\nplain\ntext\n");
    assert_eq!(
        blocks,
        vec![
            MarkdownBlock::Heading {
                level: 1,
                text: "Title".to_string()
            },
            MarkdownBlock::Blank,
            MarkdownBlock::HorizontalRule,
            MarkdownBlock::Blockquote("quoted".to_string()),
            MarkdownBlock::Paragraph("plain text".to_string()),
        ]
    );
}

#[test]
fn markdown_preview_parses_tables_as_structured_blocks() {
    let blocks = parse_markdown_blocks(
        "| Feature | Status |\n| --- | :---: |\n| Tables | **ok** |\n| Images | pending |\n",
    );

    assert_eq!(
        blocks,
        vec![MarkdownBlock::Table {
            headers: vec!["Feature".to_string(), "Status".to_string()],
            rows: vec![
                vec!["Tables".to_string(), "ok".to_string()],
                vec!["Images".to_string(), "pending".to_string()],
            ],
        }]
    );
}

#[test]
fn markdown_preview_parses_nested_list_indentation_without_losing_ordered_markers() {
    let blocks = parse_markdown_blocks("- top\n  - child\n    1. ordered child\n");

    assert_eq!(
        blocks,
        vec![
            MarkdownBlock::ListItem {
                marker: "•".to_string(),
                text: "top".to_string(),
                indent_level: 0,
            },
            MarkdownBlock::ListItem {
                marker: "•".to_string(),
                text: "child".to_string(),
                indent_level: 1,
            },
            MarkdownBlock::ListItem {
                marker: "1.".to_string(),
                text: "ordered child".to_string(),
                indent_level: 2,
            },
        ]
    );
}

#[test]
fn markdown_preview_parses_local_images_and_normalizes_titles() {
    assert_eq!(
        image("![Screenshot](assets/screen.png \"Preview\")"),
        Some(("Screenshot".to_string(), "assets/screen.png".to_string()))
    );

    let blocks = parse_markdown_blocks("![Logo](./images/logo.png)\n");
    assert_eq!(
        blocks,
        vec![MarkdownBlock::Image {
            alt: "Logo".to_string(),
            target: "./images/logo.png".to_string(),
        }]
    );
}

#[test]
fn markdown_preview_preserves_code_fence_language_labels() {
    let blocks = parse_markdown_blocks("```rust\nfn main() {}\n```\n");

    assert_eq!(
        blocks,
        vec![MarkdownBlock::CodeBlock {
            language: Some("rust".to_string()),
            code: "fn main() {}".to_string(),
        }]
    );
}

#[test]
fn markdown_preview_resolves_relative_image_paths_against_markdown_directory() {
    assert_eq!(
        resolve_local_image_path(Some("/repo/docs"), "assets/screen.png"),
        Some("/repo/docs/assets/screen.png".to_string())
    );
    assert_eq!(
        resolve_local_image_path(Some("/repo/docs"), "https://example.com/a.png"),
        None
    );
    assert_eq!(resolve_local_image_path(None, "assets/screen.png"), None);
}

#[test]
fn markdown_preview_parse_parses_tables_as_structured_blocks() {
    let blocks = parse_markdown_blocks(
        "| Feature | Status |\n| --- | :---: |\n| Tables | **ok** |\n| Images | pending |\n",
    );

    assert_eq!(
        blocks,
        vec![MarkdownBlock::Table {
            headers: vec!["Feature".to_string(), "Status".to_string()],
            rows: vec![
                vec!["Tables".to_string(), "ok".to_string()],
                vec!["Images".to_string(), "pending".to_string()],
            ],
        }]
    );
}

#[test]
fn markdown_preview_parse_parses_nested_list_indentation_without_losing_ordered_markers() {
    let blocks = parse_markdown_blocks("- top\n  - child\n    1. ordered child\n");

    assert_eq!(
        blocks,
        vec![
            MarkdownBlock::ListItem {
                marker: "•".to_string(),
                text: "top".to_string(),
                indent_level: 0,
            },
            MarkdownBlock::ListItem {
                marker: "•".to_string(),
                text: "child".to_string(),
                indent_level: 1,
            },
            MarkdownBlock::ListItem {
                marker: "1.".to_string(),
                text: "ordered child".to_string(),
                indent_level: 2,
            },
        ]
    );
}

#[test]
fn markdown_preview_parse_parses_local_images_and_normalizes_titles() {
    assert_eq!(
        image("![Screenshot](assets/screen.png \"Preview\")"),
        Some(("Screenshot".to_string(), "assets/screen.png".to_string()))
    );

    let blocks = parse_markdown_blocks("![Logo](./images/logo.png)\n");
    assert_eq!(
        blocks,
        vec![MarkdownBlock::Image {
            alt: "Logo".to_string(),
            target: "./images/logo.png".to_string(),
        }]
    );
}

#[test]
fn markdown_preview_parse_preserves_code_fence_language_labels() {
    let blocks = parse_markdown_blocks("```rust\nfn main() {}\n```\n");

    assert_eq!(
        blocks,
        vec![MarkdownBlock::CodeBlock {
            language: Some("rust".to_string()),
            code: "fn main() {}".to_string(),
        }]
    );
}

#[test]
fn markdown_preview_render_resolves_relative_image_paths_against_markdown_directory() {
    assert_eq!(
        resolve_local_image_path(Some("/repo/docs"), "assets/screen.png"),
        Some("/repo/docs/assets/screen.png".to_string())
    );
    assert_eq!(
        resolve_local_image_path(Some("/repo/docs"), "https://example.com/a.png"),
        None
    );
    assert_eq!(resolve_local_image_path(None, "assets/screen.png"), None);
}
