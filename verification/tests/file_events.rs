use llnzy::editor::BufferId;
use llnzy::editor_file_events::{
    display_name,
    external_file_lifecycle_state, plan_external_file_event, plan_external_prompt_response,
    reload_prompt_message, watcher_change_action, ExternalFileDecision,
    ExternalFileLifecycleState, ExternalFilePrompt, ExternalFilePromptKind, ExternalPromptAction,
    FileChange, WatcherAction,
};

fn prompt(path: &str, moved_to: Option<&str>, kind: ExternalFilePromptKind) -> ExternalFilePrompt {
    ExternalFilePrompt {
        buffer_id: BufferId(1),
        path: path.to_string(),
        moved_to: moved_to.map(|p| p.to_string()),
        kind,
    }
}

#[test]
fn clean_external_modification_reloads_without_prompt() {
    let change = FileChange::Modified("/tmp/file.rs".to_string());

    assert_eq!(
        external_file_lifecycle_state(Some(&change), false),
        ExternalFileLifecycleState::CleanExternallyChanged
    );
    assert_eq!(
        plan_external_file_event(&change, false),
        ExternalFileDecision::ReloadCleanModified
    );
}

#[test]
fn dirty_external_modification_prompts_before_reload() {
    let change = FileChange::Modified("/tmp/file.rs".to_string());

    assert_eq!(
        external_file_lifecycle_state(Some(&change), true),
        ExternalFileLifecycleState::DirtyExternallyChanged
    );
    assert_eq!(
        plan_external_file_event(&change, true),
        ExternalFileDecision::PromptDirtyModified
    );
}

#[test]
fn deleted_file_prompts_even_when_clean() {
    let change = FileChange::Deleted("/tmp/file.rs".to_string());

    assert_eq!(
        external_file_lifecycle_state(Some(&change), false),
        ExternalFileLifecycleState::DeletedClean
    );
    assert_eq!(
        external_file_lifecycle_state(Some(&change), true),
        ExternalFileLifecycleState::DeletedDirty
    );
    assert_eq!(
        plan_external_file_event(&change, false),
        ExternalFileDecision::PromptDeleted
    );
    assert_eq!(
        plan_external_file_event(&change, true),
        ExternalFileDecision::PromptDeleted
    );
}

#[test]
fn clean_current_state_has_no_action() {
    assert_eq!(
        external_file_lifecycle_state(None, false),
        ExternalFileLifecycleState::CleanCurrent
    );
    assert_eq!(
        external_file_lifecycle_state(None, true),
        ExternalFileLifecycleState::CleanCurrent
    );
}

#[test]
fn moved_file_prompts_as_moved_lifecycle() {
    let change = FileChange::Moved {
        from: "/tmp/file.rs".to_string(),
        to: Some("/tmp/moved.rs".to_string()),
    };

    assert_eq!(
        external_file_lifecycle_state(Some(&change), false),
        ExternalFileLifecycleState::MovedOnDiskClean
    );
    assert_eq!(
        external_file_lifecycle_state(Some(&change), true),
        ExternalFileLifecycleState::MovedOnDiskDirty
    );
    assert_eq!(
        plan_external_file_event(&change, false),
        ExternalFileDecision::PromptMoved
    );
    assert_eq!(
        plan_external_file_event(&change, true),
        ExternalFileDecision::PromptMoved
    );
}

#[test]
fn prompt_response_reloads_current_modified_prompt() {
    let p = prompt("/tmp/reload-action.txt", None, ExternalFilePromptKind::Modified);

    assert_eq!(
        plan_external_prompt_response(&p, true, true, "file.rs"),
        ExternalPromptAction::Reload("/tmp/reload-action.txt".to_string())
    );
}

#[test]
fn prompt_response_remaps_detected_move() {
    let p = prompt(
        "/tmp/move-old.txt",
        Some("/tmp/move-new.txt"),
        ExternalFilePromptKind::Moved,
    );

    assert_eq!(
        plan_external_prompt_response(&p, true, true, "file.rs"),
        ExternalPromptAction::Remap {
            old_path: "/tmp/move-old.txt".to_string(),
            new_path: "/tmp/move-new.txt".to_string()
        }
    );
}

#[test]
fn prompt_response_rejects_stale_primary_action() {
    let p = prompt("/tmp/stale-action.txt", None, ExternalFilePromptKind::Modified);

    assert_eq!(
        plan_external_prompt_response(&p, true, false, "file.rs"),
        ExternalPromptAction::Stale
    );
}

#[test]
fn prompt_response_reports_deleted_or_moved_keep_action() {
    let deleted = prompt("/tmp/keep-action.txt", None, ExternalFilePromptKind::Deleted);
    let moved = prompt("/tmp/keep-action.txt", None, ExternalFilePromptKind::Moved);

    assert_eq!(
        plan_external_prompt_response(&deleted, false, true, "file.rs"),
        ExternalPromptAction::Status("File deleted: file.rs".to_string())
    );
    assert_eq!(
        plan_external_prompt_response(&moved, false, true, "file.rs"),
        ExternalPromptAction::Status("File moved: file.rs".to_string())
    );
}

#[test]
fn keeping_a_modified_file_or_using_a_missing_move_does_nothing() {
    let modified = prompt("/tmp/a.txt", None, ExternalFilePromptKind::Modified);
    let moved = prompt("/tmp/a.txt", None, ExternalFilePromptKind::Moved);
    let deleted = prompt("/tmp/a.txt", None, ExternalFilePromptKind::Deleted);
    assert_eq!(
        plan_external_prompt_response(&modified, false, false, "a.txt"),
        ExternalPromptAction::NoAction
    );
    assert_eq!(
        plan_external_prompt_response(&moved, true, true, "a.txt"),
        ExternalPromptAction::NoAction
    );
    assert_eq!(
        plan_external_prompt_response(&deleted, true, true, "a.txt"),
        ExternalPromptAction::NoAction
    );
}

#[test]
fn watcher_changes_reload_prompt_or_are_ignored() {
    let id = BufferId(7);
    let modified = FileChange::Modified("/w/a.rs".to_string());
    assert_eq!(
        watcher_change_action(modified.clone(), None, true, false),
        WatcherAction::Ignore
    );
    assert_eq!(
        watcher_change_action(modified.clone(), Some(id), false, true),
        WatcherAction::Ignore
    );
    assert_eq!(
        watcher_change_action(modified.clone(), Some(id), false, false),
        WatcherAction::Reload("/w/a.rs".to_string())
    );
    assert_eq!(
        watcher_change_action(modified, Some(id), true, true),
        WatcherAction::Prompt(ExternalFilePrompt {
            buffer_id: id,
            path: "/w/a.rs".to_string(),
            moved_to: None,
            kind: ExternalFilePromptKind::Modified,
        })
    );
    assert_eq!(
        watcher_change_action(FileChange::Deleted("/w/b.rs".to_string()), Some(id), false, true),
        WatcherAction::Prompt(ExternalFilePrompt {
            buffer_id: id,
            path: "/w/b.rs".to_string(),
            moved_to: None,
            kind: ExternalFilePromptKind::Deleted,
        })
    );
    assert_eq!(
        watcher_change_action(
            FileChange::Moved {
                from: "/w/c.rs".to_string(),
                to: Some("/w/d.rs".to_string())
            },
            Some(id),
            false,
            false
        ),
        WatcherAction::Prompt(ExternalFilePrompt {
            buffer_id: id,
            path: "/w/c.rs".to_string(),
            moved_to: Some("/w/d.rs".to_string()),
            kind: ExternalFilePromptKind::Moved,
        })
    );
}

#[test]
fn reload_prompt_messages_name_the_files() {
    assert_eq!(
        reload_prompt_message(&prompt("/w/src/a.rs", None, ExternalFilePromptKind::Deleted)),
        "\"a.rs\" has been deleted from disk."
    );
    assert_eq!(
        reload_prompt_message(&prompt(
            "/w/src/a.rs",
            Some("/w/lib/b.rs"),
            ExternalFilePromptKind::Moved
        )),
        "\"a.rs\" was moved on disk to \"b.rs\"."
    );
    assert_eq!(
        reload_prompt_message(&prompt("/w/src/a.rs", None, ExternalFilePromptKind::Moved)),
        "\"a.rs\" was moved on disk."
    );
    assert_eq!(
        reload_prompt_message(&prompt("/w/src/a.rs", None, ExternalFilePromptKind::Modified)),
        "\"a.rs\" was modified externally. Reload?"
    );
    assert_eq!(
        reload_prompt_message(&prompt("/", None, ExternalFilePromptKind::Modified)),
        "\"file\" was modified externally. Reload?"
    );
}

#[test]
fn display_name_is_the_file_name_or_the_fallback() {
    assert_eq!(display_name("/tmp/project/main.rs", "file"), "main.rs");
    assert_eq!(display_name("notes.md", "file"), "notes.md");
    assert_eq!(display_name("/", "file"), "file");
    assert_eq!(display_name("", "untitled"), "untitled");
}
