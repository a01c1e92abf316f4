use llnzy::command_palette::{all_commands, CommandId};
use llnzy::settings_appearance::{sketch_toolbar_position_label, SketchToolbarPosition};
use llnzy::settings_background::{
    available_background_modes_with_custom, background_library_reference,
    background_reference_matches_path, ensure_background_palette, normalize_background_mode,
    push_mode, shader_supports_custom_color, EffectsConfig, ThemeColors,
};
use llnzy::settings_hotkeys::{entries_in_group, group_for_command, hotkey_entries, hotkey_groups};

fn default_effects() -> EffectsConfig {
    EffectsConfig {
        background: "none".to_string(),
        background_image: None,
        background_color: None,
        background_color2: None,
        background_color3: None,
    }
}

#[test]
fn background_modes_include_only_registered_builtins_and_custom_shaders() {
    let config = default_effects();
    let modes = available_background_modes_with_custom(
        &config,
        &[],
        vec!["scanlines".to_string(), "smoke".to_string()],
    );

    assert_eq!(modes, ["none", "smoke", "aurora", "scanlines"]);
    assert!(!modes.contains(&"matrix".to_string()));
    assert!(!modes.contains(&"nebula".to_string()));
    assert!(!modes.contains(&"tron".to_string()));
}

#[test]
fn image_mode_is_available_only_when_an_image_can_be_selected() {
    let mut config = default_effects();
    let modes_without_image = available_background_modes_with_custom(&config, &[], Vec::new());
    assert!(!modes_without_image.contains(&"image".to_string()));

    config.background_image = Some("/tmp/llnzy-bg.png".to_string());
    let modes_with_active_image = available_background_modes_with_custom(&config, &[], Vec::new());
    assert!(modes_with_active_image.contains(&"image".to_string()));

    config.background_image = None;
    let saved = ["/tmp/saved-bg.png".to_string()];
    let modes_with_saved_image = available_background_modes_with_custom(&config, &saved, Vec::new());
    assert!(modes_with_saved_image.contains(&"image".to_string()));
}

#[test]
fn unavailable_background_selection_normalizes_to_none() {
    let mut config = default_effects();
    config.background = "matrix".to_string();
    let modes = available_background_modes_with_custom(&config, &[], Vec::new());

    normalize_background_mode(&mut config, &modes);

    assert_eq!(config.background, "none");
}

#[test]
fn available_selection_is_kept_and_push_mode_skips_repeats() {
    let mut config = default_effects();
    config.background = "aurora".to_string();
    let modes = available_background_modes_with_custom(&config, &[], Vec::new());
    normalize_background_mode(&mut config, &modes);
    assert_eq!(config.background, "aurora");

    let mut list = vec!["a".to_string()];
    push_mode(&mut list, "a");
    push_mode(&mut list, "b");
    push_mode(&mut list, "b");
    assert_eq!(list, ["a", "b"]);
}

#[test]
fn only_shaders_take_custom_colors() {
    assert!(shader_supports_custom_color("smoke"));
    assert!(!shader_supports_custom_color("none"));
    assert!(!shader_supports_custom_color("image"));
    assert_eq!(background_library_reference("/bgs/forest.png"), "forest.png");
    assert_eq!(background_library_reference("/"), "/");
}

#[test]
fn hotkey_legend_lists_bound_commands_then_extras() {
    let entries = hotkey_entries();
    let bound = all_commands()
        .into_iter()
        .filter(|c| !c.keybinding.is_empty())
        .count();
    assert_eq!(bound, 32);
    assert_eq!(entries.len(), bound + 10);
    assert_eq!(entries[0].action, "Save");
    assert_eq!(entries[0].keys, "Cmd+S");
    assert_eq!(entries[0].group, "Editor");
    assert!(entries.iter().all(|e| e.action != "Open Workspace"));
    assert_eq!(entries[bound].action, "Trigger Completion");
    assert_eq!(entries[bound].group, "LSP");
    assert_eq!(entries[entries.len() - 1].keys, "Cmd+Shift+\\");
}

#[test]
fn hotkey_groups_cover_every_entry() {
    let entries = hotkey_entries();
    let groups = hotkey_groups();
    assert_eq!(
        groups,
        ["Editor", "Navigation", "LSP", "Markdown", "Terminal", "System"]
    );
    let total: usize = groups
        .iter()
        .map(|g| entries_in_group(&entries, g).len())
        .sum();
    assert_eq!(total, entries.len());
    let terminal = entries_in_group(&entries, "Terminal");
    let names: Vec<&str> = terminal.iter().map(|e| e.action).collect();
    assert_eq!(names, ["Run Task", "Toggle Terminal"]);
}

#[test]
fn command_groups() {
    assert_eq!(group_for_command(CommandId::Save), "Editor");
    assert_eq!(group_for_command(CommandId::RenameSymbol), "LSP");
    assert_eq!(group_for_command(CommandId::NextTab), "Navigation");
    assert_eq!(group_for_command(CommandId::RunTask), "Terminal");
    assert_eq!(group_for_command(CommandId::MarkdownSplit), "Markdown");
    assert_eq!(group_for_command(CommandId::ToggleFps), "System");
    assert_eq!(group_for_command(CommandId::ToggleLineComment), "Editor");
}

fn binding_of(action: &str) -> Option<&'static str> {
    hotkey_entries()
        .into_iter()
        .find(|e| e.action == action)
        .map(|e| e.keys)
}

#[test]
fn legend_lists_the_documented_shortcuts() {
    assert_eq!(binding_of("New Tab"), Some("Cmd+T"));
    assert_eq!(binding_of("Close Tab"), Some("Cmd+W"));
    assert_eq!(binding_of("Previous Tab"), Some("Cmd+["));
    assert_eq!(binding_of("Next Tab"), Some("Cmd+]"));
    assert_eq!(binding_of("Toggle Sidebar"), Some("Cmd+B"));
    assert_eq!(binding_of("Find"), Some("Cmd+F"));
    assert_eq!(binding_of("Toggle Line Comment"), Some("Cmd+/"));
    assert_eq!(binding_of("Duplicate Line"), Some("Cmd+Shift+D"));
    assert_eq!(binding_of("Delete Line"), Some("Cmd+Shift+K"));
    assert_eq!(binding_of("Move Line Up"), Some("Alt+Up"));
    assert_eq!(binding_of("Move Line Down"), Some("Alt+Down"));
    assert_eq!(binding_of("Go to Definition"), Some("F12"));
    assert_eq!(binding_of("Find References"), Some("Shift+F12"));
    assert_eq!(binding_of("Rename Symbol"), Some("F2"));
    assert_eq!(binding_of("Code Actions"), Some("Cmd+."));
    assert_eq!(binding_of("Document Symbols"), Some("Cmd+Shift+O"));
}

#[test]
fn background_palette_defaults_come_from_the_theme() {
    let mut effects = default_effects();
    effects.background_color2 = Some([1, 2, 3]);
    let colors = ThemeColors {
        cursor: [10, 20, 30],
        selection: [40, 50, 60],
        foreground: [70, 80, 90],
    };
    ensure_background_palette(&mut effects, &colors);
    assert_eq!(effects.background_color, Some([10, 20, 30]));
    assert_eq!(effects.background_color2, Some([1, 2, 3]));
    assert_eq!(effects.background_color3, Some([70, 80, 90]));
}

#[test]
fn background_references_match_by_location_or_file_name() {
    assert!(!background_reference_matches_path(None, None, "/bg/a.png"));
    assert!(background_reference_matches_path(
        Some("a.png"),
        Some("/bg/a.png"),
        "/bg/a.png"
    ));
    assert!(background_reference_matches_path(Some("/old/a.png"), None, "/bg/a.png"));
    assert!(!background_reference_matches_path(Some("b.png"), Some("/bg/b.png"), "/bg/a.png"));
}

#[test]
fn sketch_toolbar_labels() {
    assert_eq!(sketch_toolbar_position_label(SketchToolbarPosition::Top), "Top");
    assert_eq!(sketch_toolbar_position_label(SketchToolbarPosition::Left), "Left");
    assert_eq!(sketch_toolbar_position_label(SketchToolbarPosition::Right), "Right");
}

#[test]
fn completion_is_triggered_with_ctrl_space() {
    let entries = hotkey_entries();
    let completion = entries.iter().find(|e| e.action == "Trigger Completion").unwrap();
    assert_eq!(completion.keys, "Ctrl+Space");
    assert_eq!(completion.group, "LSP");
    let format = entries.iter().find(|e| e.action == "Format Document").unwrap();
    assert_eq!(format.keys, "Alt+Shift+F");
}
