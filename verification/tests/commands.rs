use llnzy::command_palette::{all_commands, fuzzy_match, CommandId, PaletteState};
use llnzy::editor::{KeyAction, MarkdownViewMode};
use llnzy::editor_command::{key_action_commands, EditorCommand};
use llnzy::workbench::{palette_dispatch, AppCommand, PaletteDispatch};

#[test]
fn editor_command_palette_save_maps_to_editor_save_command() {
    assert_eq!(
        EditorCommand::from_palette(CommandId::Save),
        Some(EditorCommand::Save)
    );
}

#[test]
fn editor_command_app_palette_commands_do_not_map_to_editor_commands() {
    assert_eq!(EditorCommand::from_palette(CommandId::NewTab), None);
    assert_eq!(EditorCommand::from_palette(CommandId::ToggleSidebar), None);
}

#[test]
fn editor_command_palette_comment_commands_map_to_editor_commands() {
    assert_eq!(
        EditorCommand::from_palette(CommandId::ToggleLineComment),
        Some(EditorCommand::ToggleLineComment)
    );
    assert_eq!(
        EditorCommand::from_palette(CommandId::ToggleBlockComment),
        Some(EditorCommand::ToggleBlockComment)
    );
    assert_eq!(
        EditorCommand::from_palette(CommandId::JumpToMatchingBracket),
        Some(EditorCommand::JumpToMatchingBracket)
    );
    assert_eq!(
        EditorCommand::from_palette(CommandId::FoldCurrent),
        Some(EditorCommand::FoldCurrent)
    );
    assert_eq!(
        EditorCommand::from_palette(CommandId::UnfoldCurrent),
        Some(EditorCommand::UnfoldCurrent)
    );
    assert_eq!(
        EditorCommand::from_palette(CommandId::FoldAll),
        Some(EditorCommand::FoldAll)
    );
    assert_eq!(
        EditorCommand::from_palette(CommandId::UnfoldAll),
        Some(EditorCommand::UnfoldAll)
    );
}

#[test]
fn tests_palette_save_maps_to_editor_save_command() {
    assert_eq!(
        EditorCommand::from_palette(CommandId::Save),
        Some(EditorCommand::Save)
    );
}

#[test]
fn tests_app_palette_commands_do_not_map_to_editor_commands() {
    assert_eq!(EditorCommand::from_palette(CommandId::NewTab), None);
    assert_eq!(EditorCommand::from_palette(CommandId::ToggleSidebar), None);
}

#[test]
fn tests_palette_comment_commands_map_to_editor_commands() {
    assert_eq!(
        EditorCommand::from_palette(CommandId::ToggleLineComment),
        Some(EditorCommand::ToggleLineComment)
    );
    assert_eq!(
        EditorCommand::from_palette(CommandId::ToggleBlockComment),
        Some(EditorCommand::ToggleBlockComment)
    );
    assert_eq!(
        EditorCommand::from_palette(CommandId::JumpToMatchingBracket),
        Some(EditorCommand::JumpToMatchingBracket)
    );
    assert_eq!(
        EditorCommand::from_palette(CommandId::FoldCurrent),
        Some(EditorCommand::FoldCurrent)
    );
    assert_eq!(
        EditorCommand::from_palette(CommandId::UnfoldCurrent),
        Some(EditorCommand::UnfoldCurrent)
    );
    assert_eq!(
        EditorCommand::from_palette(CommandId::FoldAll),
        Some(EditorCommand::FoldAll)
    );
    assert_eq!(
        EditorCommand::from_palette(CommandId::UnfoldAll),
        Some(EditorCommand::UnfoldAll)
    );
}

#[test]
fn markdown_palette_commands_set_the_view_mode() {
    assert_eq!(
        EditorCommand::from_palette(CommandId::MarkdownPreview),
        Some(EditorCommand::SetMarkdownMode(MarkdownViewMode::Preview))
    );
    assert_eq!(
        EditorCommand::from_palette(CommandId::ToggleMarkdownMode),
        Some(EditorCommand::ToggleMarkdownMode)
    );
    assert_eq!(EditorCommand::from_palette(CommandId::ToggleWordWrap), None);
}

#[test]
fn key_action_commands_follow_dispatch_order() {
    let action = KeyAction {
        copy: true,
        save: true,
        run_task: true,
        request_completion: true,
        ..KeyAction::default()
    };
    assert_eq!(
        key_action_commands(&action),
        vec![
            EditorCommand::Save,
            EditorCommand::Copy,
            EditorCommand::RequestCompletion,
            EditorCommand::RunTask
        ]
    );
    assert!(key_action_commands(&KeyAction::default()).is_empty());
}

#[test]
fn palette_lists_every_registered_command() {
    let commands = all_commands();
    assert_eq!(commands.len(), 33);
    assert_eq!(commands[0].name, "Save");
    assert_eq!(commands[0].keybinding, "Cmd+S");
    assert_eq!(commands[23].name, "Open Workspace");
    assert_eq!(commands[23].keybinding, "");
    assert_eq!(commands[32].id, CommandId::ToggleFps);
}

#[test]
fn fuzzy_match_reads_query_as_subsequence() {
    assert!(fuzzy_match("", "anything"));
    assert!(fuzzy_match("save", "save"));
    assert!(fuzzy_match("tgtm", "toggle terminal"));
    assert!(!fuzzy_match("tmt", "toggle"));
    assert!(!fuzzy_match("abc", "acb"));
    assert!(!fuzzy_match("longer", "long"));
}

#[test]
fn palette_filter_narrows_by_lowercased_subsequence() {
    let mut palette = PaletteState::default();
    palette.open();
    assert_eq!(palette.filtered.len(), 33);
    palette.set_query("TERM".to_string());
    let names: Vec<&str> = palette.filtered.iter().map(|c| c.name).collect();
    assert_eq!(names, vec!["Toggle Terminal"]);
    assert_eq!(palette.selected, 0);
    assert_eq!(palette.selected_command(), Some(CommandId::ToggleTerminal));

    palette.set_query(String::new());
    assert_eq!(palette.filtered.len(), 33);

    palette.set_query("zzzz".to_string());
    assert!(palette.filtered.is_empty());
    assert_eq!(palette.selected_command(), None);
}

#[test]
fn palette_selection_moves_within_bounds_and_confirm_closes() {
    let mut palette = PaletteState::default();
    palette.open();
    palette.set_query("tab".to_string());
    let count = palette.filtered.len();
    assert!(count >= 3);
    palette.move_selection_up();
    assert_eq!(palette.selected, 0);
    for _ in 0..(count + 5) {
        palette.move_selection_down();
    }
    assert_eq!(palette.selected, count - 1);
    palette.move_selection_up();
    assert_eq!(palette.selected, count - 2);
    let expected = palette.filtered[count - 2].id;
    assert_eq!(palette.confirm(), Some(expected));
    assert!(!palette.open);
    assert!(palette.query.is_empty());
}

#[test]
fn palette_close_clears_query() {
    let mut palette = PaletteState::default();
    palette.open();
    palette.query = "x".to_string();
    palette.close();
    assert!(!palette.open);
    assert_eq!(palette.query, "");
}

#[test]
fn open_workspace_palette_command_emits_project_picker() {
    assert_eq!(
        palette_dispatch(CommandId::OpenWorkspace, 0, 1),
        PaletteDispatch::App(AppCommand::PickOpenProject)
    );
}

#[test]
fn toggle_terminal_palette_command_uses_terminal_tab_command() {
    assert_eq!(
        palette_dispatch(CommandId::ToggleTerminal, 0, 1),
        PaletteDispatch::App(AppCommand::NewTerminalTab)
    );
}

#[test]
fn previous_tab_palette_command_wraps_to_last_tab() {
    assert_eq!(
        palette_dispatch(CommandId::PrevTab, 0, 3),
        PaletteDispatch::App(AppCommand::SwitchTab(2))
    );
}

#[test]
fn sidebar_palette_command_emits_app_toggle() {
    assert_eq!(
        palette_dispatch(CommandId::ToggleSidebar, 0, 1),
        PaletteDispatch::App(AppCommand::ToggleSidebar)
    );
}

#[test]
fn fps_palette_command_emits_app_toggle() {
    assert_eq!(
        palette_dispatch(CommandId::ToggleFps, 0, 1),
        PaletteDispatch::App(AppCommand::ToggleFps)
    );
}

#[test]
fn effects_palette_command_asks_to_toggle_effects() {
    assert_eq!(
        palette_dispatch(CommandId::ToggleEffects, 0, 1),
        PaletteDispatch::ToggleEffects
    );
}

#[test]
fn tab_palette_commands_wrap_and_target_active_tab() {
    assert_eq!(
        palette_dispatch(CommandId::NextTab, 2, 3),
        PaletteDispatch::App(AppCommand::SwitchTab(0))
    );
    assert_eq!(
        palette_dispatch(CommandId::NextTab, 0, 3),
        PaletteDispatch::App(AppCommand::SwitchTab(1))
    );
    assert_eq!(
        palette_dispatch(CommandId::PrevTab, 2, 3),
        PaletteDispatch::App(AppCommand::SwitchTab(1))
    );
    assert_eq!(palette_dispatch(CommandId::NextTab, 0, 0), PaletteDispatch::Nothing);
    assert_eq!(
        palette_dispatch(CommandId::CloseTab, 4, 6),
        PaletteDispatch::App(AppCommand::CloseTab(4))
    );
    assert_eq!(
        palette_dispatch(CommandId::Save, 0, 1),
        PaletteDispatch::Editor(EditorCommand::Save)
    );
    assert_eq!(palette_dispatch(CommandId::ToggleWordWrap, 0, 1), PaletteDispatch::Nothing);
}

#[test]
fn palette_toggle_opens_and_closes() {
    let mut palette = PaletteState::default();
    palette.toggle();
    assert!(palette.open);
    palette.set_query("save".to_string());
    palette.toggle();
    assert!(!palette.open);
    assert!(palette.query.is_empty());
    palette.toggle();
    assert!(palette.open);
    assert_eq!(palette.filtered.len(), 33);
}

#[test]
fn format_document_is_bound_to_alt_shift_f() {
    let cmds = all_commands();
    let format = cmds.iter().find(|c| c.id == CommandId::FormatDocument).unwrap();
    assert_eq!(format.keybinding, "Alt+Shift+F");
    let effects = cmds.iter().find(|c| c.id == CommandId::ToggleEffects).unwrap();
    assert_eq!(effects.keybinding, "Cmd+Shift+F");
}

#[test]
fn no_two_commands_share_a_key() {
    let cmds = all_commands();
    for (i, a) in cmds.iter().enumerate() {
        for b in cmds.iter().skip(i + 1) {
            if !a.keybinding.is_empty() {
                assert_ne!(a.keybinding, b.keybinding, "{} and {}", a.name, b.name);
            }
        }
    }
}

#[test]
fn a_longer_query_keeps_fewer_commands() {
    let mut short = PaletteState::default();
    short.query = "To".to_string();
    short.update_filter();
    let mut long = PaletteState::default();
    long.query = "Tog".to_string();
    long.update_filter();
    let mut longer = PaletteState::default();
    longer.query = "TOGGLE T".to_string();
    longer.update_filter();
    assert!(long.filtered.len() <= short.filtered.len());
    assert!(longer.filtered.len() < long.filtered.len());
    assert!(!longer.filtered.is_empty());
    for c in long.filtered.iter() {
        assert!(short.filtered.iter().any(|d| d.id == c.id));
    }
    for c in longer.filtered.iter() {
        assert!(long.filtered.iter().any(|d| d.id == c.id));
    }
}

#[test]
fn the_palette_filter_ignores_ascii_case() {
    let mut upper = PaletteState::default();
    upper.query = "TAB".to_string();
    upper.update_filter();
    let mut lower = PaletteState::default();
    lower.query = "tab".to_string();
    lower.update_filter();
    let ids: Vec<CommandId> = upper.filtered.iter().map(|c| c.id).collect();
    let lower_ids: Vec<CommandId> = lower.filtered.iter().map(|c| c.id).collect();
    assert_eq!(ids, lower_ids);
    assert!(ids.contains(&CommandId::NewTab));
    assert!(ids.contains(&CommandId::CloseTab));
}
