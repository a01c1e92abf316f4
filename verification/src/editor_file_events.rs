//! What the editor does when a file it has open changes on disk: reload it,
//! ask the user, or leave it alone.
use vstd::prelude::*;

use crate::editor::BufferId;
use crate::paths::{path_file_name, spec_path_file_name};
use crate::text::{chars_of, extend_chars, string_of};

verus! {

/// A change the file watcher reports.
#[derive(Clone, Debug, PartialEq, Eq)]
pub enum FileChange {
    Modified(String),
    Deleted(String),
    Moved { from: String, to: Option<String> },
}

/// What to do about an external change to an open file.
#[derive(Clone, Copy, Debug, PartialEq, Eq, Structural)]
pub enum ExternalFileDecision {
    NoAction,
    ReloadCleanModified,
    PromptDirtyModified,
    PromptDeleted,
    PromptMoved,
}

/// An open file's state with respect to the disk.
#[derive(Clone, Copy, Debug, PartialEq, Eq, Structural)]
pub enum ExternalFileLifecycleState {
    CleanCurrent,
    CleanExternallyChanged,
    DirtyExternallyChanged,
    DeletedClean,
    DeletedDirty,
    MovedOnDiskClean,
    MovedOnDiskDirty,
}

/// Which question the reload prompt asks.
#[derive(Clone, Copy, Debug, PartialEq, Eq, Structural)]
pub enum ExternalFilePromptKind {
    Modified,
    Deleted,
    Moved,
}

/// The prompt shown for an external change to the buffer `buffer_id`, which
/// had `path` when the change was seen.
#[derive(Clone, Debug, PartialEq, Eq)]
pub struct ExternalFilePrompt {
    pub buffer_id: BufferId,
    pub path: String,
    pub moved_to: Option<String>,
    pub kind: ExternalFilePromptKind,
}

/// What answering the prompt leads to.
#[derive(Clone, Debug, PartialEq, Eq)]
pub enum ExternalPromptAction {
    NoAction,
    Reload(String),
    Remap { old_path: String, new_path: String },
    Status(String),
    Stale,
}

/// What one watcher event leads to for the buffer it concerns.
#[derive(Clone, Debug, PartialEq, Eq)]
pub enum WatcherAction {
    Ignore,
    Reload(String),
    Prompt(ExternalFilePrompt),
}

pub open spec fn lifecycle_spec(change: Option<FileChange>, modified: bool) -> ExternalFileLifecycleState {
    match change {
        None => ExternalFileLifecycleState::CleanCurrent,
        Some(FileChange::Modified(_)) => if modified {
            ExternalFileLifecycleState::DirtyExternallyChanged
        } else {
            ExternalFileLifecycleState::CleanExternallyChanged
        },
        Some(FileChange::Deleted(_)) => if modified {
            ExternalFileLifecycleState::DeletedDirty
        } else {
            ExternalFileLifecycleState::DeletedClean
        },
        Some(FileChange::Moved { .. }) => if modified {
            ExternalFileLifecycleState::MovedOnDiskDirty
        } else {
            ExternalFileLifecycleState::MovedOnDiskClean
        },
    }
}

pub open spec fn decision_for(state: ExternalFileLifecycleState) -> ExternalFileDecision {
    match state {
        ExternalFileLifecycleState::CleanCurrent => ExternalFileDecision::NoAction,
        ExternalFileLifecycleState::CleanExternallyChanged => ExternalFileDecision::ReloadCleanModified,
        ExternalFileLifecycleState::DirtyExternallyChanged => ExternalFileDecision::PromptDirtyModified,
        ExternalFileLifecycleState::DeletedClean | ExternalFileLifecycleState::DeletedDirty => {
            ExternalFileDecision::PromptDeleted
        },
        ExternalFileLifecycleState::MovedOnDiskClean
        | ExternalFileLifecycleState::MovedOnDiskDirty => ExternalFileDecision::PromptMoved,
    }
}

/// The state of an open file after `change` (none: nothing happened on disk),
/// given whether the buffer has unsaved edits.
pub fn external_file_lifecycle_state(change: Option<&FileChange>, buffer_is_modified: bool) -> (r:
    ExternalFileLifecycleState)
    ensures
        r == lifecycle_spec(
            match change {
                Some(c) => Some(*c),
                None => None,
            },
            buffer_is_modified,
        ),
{
    match change {
        None => ExternalFileLifecycleState::CleanCurrent,
        Some(FileChange::Modified(_)) => if buffer_is_modified {
            ExternalFileLifecycleState::DirtyExternallyChanged
        } else {
            ExternalFileLifecycleState::CleanExternallyChanged
        },
        Some(FileChange::Deleted(_)) => if buffer_is_modified {
            ExternalFileLifecycleState::DeletedDirty
        } else {
            ExternalFileLifecycleState::DeletedClean
        },
        Some(FileChange::Moved { .. }) => if buffer_is_modified {
            ExternalFileLifecycleState::MovedOnDiskDirty
        } else {
            ExternalFileLifecycleState::MovedOnDiskClean
        },
    }
}

/// What to do about `change` to an open file.
pub fn plan_external_file_event(change: &FileChange, buffer_is_modified: bool) -> (r:
    ExternalFileDecision)
    ensures
        r == decision_for(lifecycle_spec(Some(*change), buffer_is_modified)),
{
    match external_file_lifecycle_state(Some(change), buffer_is_modified) {
        ExternalFileLifecycleState::CleanCurrent => ExternalFileDecision::NoAction,
        ExternalFileLifecycleState::CleanExternallyChanged => ExternalFileDecision::ReloadCleanModified,
        ExternalFileLifecycleState::DirtyExternallyChanged => ExternalFileDecision::PromptDirtyModified,
        ExternalFileLifecycleState::DeletedClean | ExternalFileLifecycleState::DeletedDirty => {
            ExternalFileDecision::PromptDeleted
        },
        ExternalFileLifecycleState::MovedOnDiskClean
        | ExternalFileLifecycleState::MovedOnDiskDirty => ExternalFileDecision::PromptMoved,
    }
}

/// A buffer is reloaded without asking only when it has no unsaved edits.
pub proof fn law_only_clean_buffers_reload_silently(change: FileChange, modified: bool)
    requires
        decision_for(lifecycle_spec(Some(change), modified))
            == ExternalFileDecision::ReloadCleanModified,
    ensures
        !modified,
        change is Modified,
{
}

/// A deleted or moved file is always asked about, edited or not.
pub proof fn law_deleted_or_moved_always_prompts(change: FileChange, modified: bool)
    requires
        !(change is Modified),
    ensures
        decision_for(lifecycle_spec(Some(change), modified)) == (if change is Deleted {
            ExternalFileDecision::PromptDeleted
        } else {
            ExternalFileDecision::PromptMoved
        }),
{
}

/// `prefix` followed by `name`, as a string.
fn join_message(prefix: &str, name: &str) -> (r: String)
    ensures
        r@ == prefix@ + name@,
{
    let mut v = chars_of(prefix);
    let n = chars_of(name);
    extend_chars(&mut v, n.as_slice());
    string_of(v.as_slice())
}

/// What answering the prompt does. `accept_primary` is the Reload or
/// Use Moved Path button; `target_current` says whether the buffer the
/// prompt was raised for still has the prompt's path.
pub fn plan_external_prompt_response(
    prompt: &ExternalFilePrompt,
    accept_primary: bool,
    target_current: bool,
    file_name: &str,
) -> (r: ExternalPromptAction)
    ensures
        if accept_primary && !target_current {
            r == ExternalPromptAction::Stale
        } else if accept_primary && prompt.kind == ExternalFilePromptKind::Modified {
            r == ExternalPromptAction::Reload(prompt.path)
        } else if accept_primary && prompt.kind == ExternalFilePromptKind::Moved {
            r == match prompt.moved_to {
                Some(new_path) => ExternalPromptAction::Remap { old_path: prompt.path, new_path },
                None => ExternalPromptAction::NoAction,
            }
        } else if !accept_primary && prompt.kind == ExternalFilePromptKind::Deleted {
            r matches ExternalPromptAction::Status(m) && m@ == "File deleted: "@ + file_name@
        } else if !accept_primary && prompt.kind == ExternalFilePromptKind::Moved {
            r matches ExternalPromptAction::Status(m) && m@ == "File moved: "@ + file_name@
        } else {
            r == ExternalPromptAction::NoAction
        },
{
    if accept_primary && !target_current {
        return ExternalPromptAction::Stale;
    }
    match (accept_primary, prompt.kind) {
        (true, ExternalFilePromptKind::Modified) => ExternalPromptAction::Reload(
            prompt.path.clone(),
        ),
        (true, ExternalFilePromptKind::Moved) => match &prompt.moved_to {
            Some(new_path) => ExternalPromptAction::Remap {
                old_path: prompt.path.clone(),
                new_path: new_path.clone(),
            },
            None => ExternalPromptAction::NoAction,
        },
        (false, ExternalFilePromptKind::Deleted) => ExternalPromptAction::Status(
            join_message("File deleted: ", file_name),
        ),
        (false, ExternalFilePromptKind::Moved) => ExternalPromptAction::Status(
            join_message("File moved: ", file_name),
        ),
        _ => ExternalPromptAction::NoAction,
    }
}

/// What the file watcher's `change` leads to. `target` is the open buffer
/// with the changed path, if any; `matches_disk` says whether the file on
/// disk already holds the buffer's text.
pub fn watcher_change_action(
    change: FileChange,
    target: Option<BufferId>,
    buffer_is_modified: bool,
    matches_disk: bool,
) -> (r: WatcherAction)
    ensures
        match target {
            None => r == WatcherAction::Ignore,
            Some(buffer_id) => match change {
                FileChange::Modified(path) => if !buffer_is_modified && matches_disk {
                    r == WatcherAction::Ignore
                } else if buffer_is_modified {
                    r == WatcherAction::Prompt(
                        ExternalFilePrompt {
                            buffer_id,
                            path,
                            moved_to: None,
                            kind: ExternalFilePromptKind::Modified,
                        },
                    )
                } else {
                    r == WatcherAction::Reload(path)
                },
                FileChange::Deleted(path) => r == WatcherAction::Prompt(
                    ExternalFilePrompt {
                        buffer_id,
                        path,
                        moved_to: None,
                        kind: ExternalFilePromptKind::Deleted,
                    },
                ),
                FileChange::Moved { from, to } => r == WatcherAction::Prompt(
                    ExternalFilePrompt {
                        buffer_id,
                        path: from,
                        moved_to: to,
                        kind: ExternalFilePromptKind::Moved,
                    },
                ),
            },
        },
{
    let buffer_id = match target {
        Some(id) => id,
        None => return WatcherAction::Ignore,
    };
    match change {
        FileChange::Modified(path) => {
            if !buffer_is_modified && matches_disk {
                return WatcherAction::Ignore;
            }
            let probe = FileChange::Modified(String::new());
            match plan_external_file_event(&probe, buffer_is_modified) {
                ExternalFileDecision::ReloadCleanModified => WatcherAction::Reload(path),
                ExternalFileDecision::PromptDirtyModified => WatcherAction::Prompt(
                    ExternalFilePrompt {
                        buffer_id,
                        path,
                        moved_to: None,
                        kind: ExternalFilePromptKind::Modified,
                    },
                ),
                _ => WatcherAction::Ignore,
            }
        },
        FileChange::Deleted(path) => WatcherAction::Prompt(
            ExternalFilePrompt { buffer_id, path, moved_to: None, kind: ExternalFilePromptKind::Deleted },
        ),
        FileChange::Moved { from, to } => WatcherAction::Prompt(
            ExternalFilePrompt { buffer_id, path: from, moved_to: to, kind: ExternalFilePromptKind::Moved },
        ),
    }
}

/// The file name shown for `path`, or `fallback` when it has none.
pub fn display_name(path: &str, fallback: &str) -> (r: String)
    ensures
        r@ == match spec_path_file_name(path@) {
            Some(n) => n,
            None => fallback@,
        },
{
    match path_file_name(path) {
        Some(n) => n,
        None => fallback.to_string(),
    }
}

/// The question the reload prompt asks.
pub fn reload_prompt_message(prompt: &ExternalFilePrompt) -> (r: String)
    ensures
        ({
            let name = match spec_path_file_name(prompt.path@) {
                Some(n) => n,
                None => "file"@,
            };
            r@ == match prompt.kind {
                ExternalFilePromptKind::Deleted => seq!['"'] + name + "\" has been deleted from disk."@,
                ExternalFilePromptKind::Moved => match prompt.moved_to {
                    Some(to) => seq!['"'] + name + "\" was moved on disk to \""@ + match spec_path_file_name(to@) {
                        Some(n) => n,
                        None => "a new path"@,
                    } + "\"."@,
                    None => seq!['"'] + name + "\" was moved on disk."@,
                },
                ExternalFilePromptKind::Modified => seq!['"'] + name + "\" was modified externally. Reload?"@,
            }
        }),
{
    let name = display_name(prompt.path.as_str(), "file");
    let mut v: Vec<char> = Vec::new();
    v.push('"');
    let nv = chars_of(name.as_str());
    extend_chars(&mut v, nv.as_slice());
    match prompt.kind {
        ExternalFilePromptKind::Deleted => {
            let t = chars_of("\" has been deleted from disk.");
            extend_chars(&mut v, t.as_slice());
        },
        ExternalFilePromptKind::Moved => match &prompt.moved_to {
            Some(to) => {
                let t = chars_of("\" was moved on disk to \"");
                extend_chars(&mut v, t.as_slice());
                let to_name = display_name(to.as_str(), "a new path");
                let tv = chars_of(to_name.as_str());
                extend_chars(&mut v, tv.as_slice());
                let e = chars_of("\".");
                extend_chars(&mut v, e.as_slice());
            },
            None => {
                let t = chars_of("\" was moved on disk.");
                extend_chars(&mut v, t.as_slice());
            },
        },
        ExternalFilePromptKind::Modified => {
            let t = chars_of("\" was modified externally. Reload?");
            extend_chars(&mut v, t.as_slice());
        },
    }
    proof {
        assert(seq!['"'] + name@ =~= seq!['"'].add(name@));
    }
    string_of(v.as_slice())
}

} // verus!
