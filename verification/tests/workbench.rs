use llnzy::editor::Position;
use llnzy::workbench::{
    apply_completion_step, completion_key, completion_step, lsp_edit_range, signature_help_step,
    CompletionKey, CompletionStep, SignatureHelpStep,
    save_prompt_body, PendingClose,
    active_singleton_tab, apply_home_action, captures_terminal_input, settings_open,
    settings_surface_active, HomeAction, apply_footer_action, apply_workspace_action, filtered_completions,
    footer_singletons, queue_chip_label, tab_entry_for_label, workspace_details,
    workspace_from_form, ActiveView, AppCommand, CompletionItem, CompletionState, FooterAction,
    FooterQueuePrompt, SavedWorkspace, SettingsRenderOutput, TabEntry, TabKind, UiState,
    WorkspaceAction,
};

#[test]
fn only_stacker_and_sketch_are_singleton_tabs() {
    assert_eq!(active_singleton_tab(Some(TabKind::Stacker)), Some(TabKind::Stacker));
    assert_eq!(active_singleton_tab(Some(TabKind::Sketch)), Some(TabKind::Sketch));
    assert_eq!(active_singleton_tab(Some(TabKind::Terminal)), None);
    assert_eq!(active_singleton_tab(Some(TabKind::Git)), None);
    assert_eq!(active_singleton_tab(None), None);
}

#[test]
fn footer_actions_become_navigation_or_commands() {
    let mut nav = None;
    let mut commands = Vec::new();
    apply_footer_action(FooterAction::ShowOverlay(ActiveView::Settings), &mut nav, &mut commands);
    assert_eq!(nav, Some(ActiveView::Settings));
    assert!(commands.is_empty());
    apply_footer_action(FooterAction::OpenSingletonTab(TabKind::Git), &mut nav, &mut commands);
    apply_footer_action(FooterAction::NewTerminalTab, &mut nav, &mut commands);
    apply_footer_action(
        FooterAction::CopyQueuedPrompt("echo hi".to_string()),
        &mut nav,
        &mut commands,
    );
    assert_eq!(
        commands,
        vec![
            AppCommand::OpenSingletonTab(TabKind::Git),
            AppCommand::NewTerminalTab,
            AppCommand::CopyToClipboard("echo hi".to_string()),
        ]
    );
    assert_eq!(nav, Some(ActiveView::Settings));
}

#[test]
fn footer_labels() {
    let prompt = FooterQueuePrompt {
        letter: 'A',
        preview: "cargo test".to_string(),
        clipboard_text: "cargo test --all".to_string(),
    };
    assert_eq!(queue_chip_label(&prompt), "A: cargo test");
    let singletons = footer_singletons();
    assert_eq!(singletons.len(), 5);
    assert_eq!(singletons[0], ("Stacker", TabKind::Stacker));
    assert_eq!(singletons[4], ("Settings", TabKind::Settings));
}

#[test]
fn workspace_form_builds_a_trimmed_workspace() {
    let tabs = vec![
        "Terminal".to_string(),
        "Git".to_string(),
        "Sketch".to_string(),
        "Other".to_string(),
    ];
    let ws = workspace_from_form("  Daily  ", "", "  /home/me/proj ", &tabs).unwrap();
    assert_eq!(ws.name, "Daily");
    assert_eq!(ws.theme, None);
    assert_eq!(ws.project_path, Some("/home/me/proj".to_string()));
    assert_eq!(
        ws.tabs,
        vec![TabEntry::Terminal, TabEntry::Git, TabEntry::Sketch, TabEntry::Terminal]
    );
    assert_eq!(workspace_from_form("   ", "Dark", "", &tabs), None);
    assert_eq!(tab_entry_for_label("Stacker"), TabEntry::Stacker);
}

#[test]
fn workspace_details_describe_theme_project_and_tabs() {
    let ws = SavedWorkspace {
        name: "Daily".to_string(),
        theme: Some("Dark".to_string()),
        project_path: Some("/home/me/proj".to_string()),
        tabs: vec![TabEntry::Terminal],
    };
    assert_eq!(workspace_details(&ws), "Theme: Dark  |  Project: proj  |  1 tab");
    let bare = SavedWorkspace {
        theme: None,
        project_path: None,
        tabs: vec![TabEntry::Terminal, TabEntry::Git],
        ..ws.clone()
    };
    assert_eq!(workspace_details(&bare), "2 tabs");

    let mut output = SettingsRenderOutput {
        launch_workspace: None,
    };
    apply_workspace_action(WorkspaceAction::Launch(ws.clone()), &mut output);
    assert_eq!(output.launch_workspace, Some(ws));
}

fn completion(labels: &[&str], filter: &str) -> CompletionState {
    CompletionState {
        items: labels
            .iter()
            .map(|l| CompletionItem {
                label: l.to_string(),
                insert_text: None,
            })
            .collect(),
        selected: 0,
        filter: filter.to_string(),
        trigger_line: 0,
        trigger_col: 0,
    }
}

#[test]
fn completions_filter_ignoring_case_and_show_at_most_twenty() {
    assert!(filtered_completions(None).is_empty());
    let state = completion(&["push_str", "Push", "pop", "len"], "PUS");
    let shown: Vec<&str> = filtered_completions(Some(&state))
        .iter()
        .map(|c| c.label.as_str())
        .collect();
    assert_eq!(shown, ["push_str", "Push"]);

    let many: Vec<String> = (0..30).map(|i| format!("item{i}")).collect();
    let refs: Vec<&str> = many.iter().map(|s| s.as_str()).collect();
    let all = completion(&refs, "");
    let shown = filtered_completions(Some(&all));
    assert_eq!(shown.len(), 20);
    assert_eq!(shown[19].label, "item19");
    let ones = completion(&refs, "1");
    let shown: Vec<&str> = filtered_completions(Some(&ones))
        .iter()
        .map(|c| c.label.as_str())
        .collect();
    assert_eq!(shown.len(), 12);
    assert_eq!(shown[0], "item1");
    assert_eq!(shown[11], "item21");
}

#[test]
fn overlays_and_other_tabs_cover_the_terminal() {
    assert!(settings_open(ActiveView::Home, Some(TabKind::Terminal)));
    assert!(settings_open(ActiveView::Settings, None));
    assert!(!settings_open(ActiveView::Shells, Some(TabKind::Terminal)));
    assert!(settings_open(ActiveView::Shells, Some(TabKind::Git)));
    assert!(settings_open(ActiveView::Shells, None));
    assert!(captures_terminal_input(Some(TabKind::Sketch)));
    assert!(!captures_terminal_input(Some(TabKind::Stacker)));
    assert!(!captures_terminal_input(None));
}

#[test]
fn home_actions_navigate_and_open() {
    let mut nav = Some(ActiveView::Home);
    let mut commands = Vec::new();
    apply_home_action(
        HomeAction {
            nav_target: None,
            open_project: None,
            launch_workspace: None,
        },
        &mut nav,
        &mut commands,
    );
    assert_eq!(nav, Some(ActiveView::Home));
    assert!(commands.is_empty());
    let ws = SavedWorkspace {
        name: "w".to_string(),
        theme: None,
        project_path: None,
        tabs: vec![],
    };
    apply_home_action(
        HomeAction {
            nav_target: Some(ActiveView::Shells),
            open_project: Some("/p".to_string()),
            launch_workspace: Some(ws.clone()),
        },
        &mut nav,
        &mut commands,
    );
    assert_eq!(nav, Some(ActiveView::Shells));
    assert_eq!(
        commands,
        vec![AppCommand::OpenProject("/p".to_string()), AppCommand::LaunchWorkspace(ws)]
    );
    assert!(settings_surface_active(Some(TabKind::Settings)));
    assert!(settings_surface_active(Some(TabKind::Appearances)));
    assert!(!settings_surface_active(Some(TabKind::Git)));
}

#[test]
fn save_prompt_names_the_unsaved_files() {
    assert_eq!(
        save_prompt_body(&PendingClose::Tab(2, "main.rs".to_string())),
        "\"main.rs\" has unsaved changes."
    );
    assert_eq!(
        save_prompt_body(&PendingClose::Window(vec![(0, "a.rs".to_string())])),
        "\"a.rs\" has unsaved changes."
    );
    assert_eq!(
        save_prompt_body(&PendingClose::Window(vec![
            (0, "a.rs".to_string()),
            (3, "b.rs".to_string()),
            (4, "c.md".to_string()),
        ])),
        "3 files have unsaved changes:\na.rs, b.rs, c.md"
    );
}

#[test]
fn tab_renaming_starts_from_the_current_name_and_cancels_cleanly() {
    let mut ui = UiState::new();
    assert_eq!(ui.editing_tab, None);
    ui.start_editing_tab(2, Some("build"));
    assert_eq!(ui.editing_tab, Some(2));
    assert_eq!(ui.editing_tab_text, "build");
    ui.start_editing_tab(0, None);
    assert_eq!(ui.editing_tab, Some(0));
    assert_eq!(ui.editing_tab_text, "");
    ui.editing_tab_text.push_str("logs");
    ui.cancel_editing_tab();
    assert_eq!(ui.editing_tab, None);
    assert_eq!(ui.editing_tab_text, "");
}

#[test]
fn tab_context_and_terminal_panel() {
    let mut ui = UiState::new();
    ui.set_tab_context(4, 3);
    assert_eq!((ui.tab_count, ui.active_tab_index), (4, 3));
    assert!(!ui.terminal_panel_open);
    ui.toggle_terminal_panel();
    assert!(ui.terminal_panel_open);
    ui.toggle_terminal_panel();
    assert!(!ui.terminal_panel_open);
    assert_eq!((ui.tab_count, ui.active_tab_index), (4, 3));
}

fn popup(selected: usize) -> CompletionState {
    CompletionState {
        items: vec![
            CompletionItem { label: "println!".to_string(), insert_text: Some("println!(\"{}\")".to_string()) },
            CompletionItem { label: "print".to_string(), insert_text: None },
            CompletionItem { label: "précis".to_string(), insert_text: None },
        ],
        selected,
        filter: String::new(),
        trigger_line: 4,
        trigger_col: 8,
    }
}

#[test]
fn completion_keys_move_the_selection_within_the_items() {
    let c = popup(0);
    let shown = c.items.clone();
    assert_eq!(completion_step(&c, &shown, CompletionKey::Dismiss), CompletionStep::Close);
    assert_eq!(completion_step(&c, &shown, CompletionKey::Down), CompletionStep::Select(1));
    assert_eq!(completion_step(&c, &shown, CompletionKey::Up), CompletionStep::Select(0));
    let last = popup(2);
    assert_eq!(completion_step(&last, &shown, CompletionKey::Down), CompletionStep::Select(2));
    assert_eq!(completion_step(&last, &shown, CompletionKey::Up), CompletionStep::Select(1));
    let empty = CompletionState { items: Vec::new(), ..popup(0) };
    assert_eq!(completion_step(&empty, &[], CompletionKey::Down), CompletionStep::Select(0));
}

#[test]
fn accepting_a_completion_inserts_its_text_from_the_trigger_point() {
    let c = popup(0);
    let shown = c.items.clone();
    assert_eq!(
        completion_step(&c, &shown, CompletionKey::Accept),
        CompletionStep::Replace {
            line: 4,
            start_col: 8,
            text: "println!(\"{}\")".to_string(),
            new_col: 22,
        }
    );
    let by_label = popup(2);
    assert_eq!(
        completion_step(&by_label, &shown, CompletionKey::Accept),
        CompletionStep::Replace { line: 4, start_col: 8, text: "précis".to_string(), new_col: 14 }
    );
    assert_eq!(completion_step(&by_label, &shown[..1], CompletionKey::Accept), CompletionStep::Close);
}

#[test]
fn completion_steps_update_or_close_the_popup() {
    let mut open = Some(popup(0));
    apply_completion_step(&mut open, &CompletionStep::Select(2));
    assert_eq!(open.as_ref().map(|c| c.selected), Some(2));
    apply_completion_step(&mut open, &CompletionStep::Close);
    assert!(open.is_none());
    let mut open = Some(popup(1));
    let step = CompletionStep::Replace { line: 4, start_col: 8, text: "print".to_string(), new_col: 13 };
    apply_completion_step(&mut open, &step);
    assert!(open.is_none());
}

#[test]
fn completion_keys_in_one_frame_are_taken_in_order() {
    assert_eq!(completion_key(true, true, true, true), Some(CompletionKey::Dismiss));
    assert_eq!(completion_key(false, true, true, true), Some(CompletionKey::Down));
    assert_eq!(completion_key(false, false, true, true), Some(CompletionKey::Up));
    assert_eq!(completion_key(false, false, false, true), Some(CompletionKey::Accept));
    assert_eq!(completion_key(false, false, false, false), None);
}

#[test]
fn edits_give_the_range_the_language_server_needs() {
    let before = Position::new(2, 5);
    let after = Position::new(2, 8);
    assert_eq!(lsp_edit_range(10, 10, before, after), None);
    assert_eq!(lsp_edit_range(10, 13, before, after), Some((before, before, true)));
    let back = Position::new(2, 4);
    assert_eq!(lsp_edit_range(10, 9, before, back), Some((back, before, false)));
}

#[test]
fn parentheses_and_commas_drive_signature_help() {
    assert_eq!(signature_help_step(Some('(')), SignatureHelpStep::Request);
    assert_eq!(signature_help_step(Some(',')), SignatureHelpStep::Request);
    assert_eq!(signature_help_step(Some(')')), SignatureHelpStep::Clear);
    assert_eq!(signature_help_step(Some('x')), SignatureHelpStep::Keep);
    assert_eq!(signature_help_step(None), SignatureHelpStep::Keep);
}
