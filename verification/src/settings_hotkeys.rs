//! The hotkey legend of the settings: every bound command, by group.
use vstd::prelude::*;

use crate::command_palette::{all_commands, command_table, Command, CommandId};
use crate::text::chars_of;

verus! {

/// One row of the legend.
#[derive(Clone, Copy)]
pub struct HotkeyEntry {
    pub action: &'static str,
    pub keys: &'static str,
    pub group: &'static str,
}

/// The legend group a palette command is listed under.
pub open spec fn group_spec(id: CommandId) -> &'static str {
    match id {
        CommandId::Save | CommandId::Undo | CommandId::Redo | CommandId::SelectAll | CommandId::Cut
        | CommandId::Copy | CommandId::Paste | CommandId::DeleteLine | CommandId::DuplicateLine
        | CommandId::MoveLineUp | CommandId::MoveLineDown | CommandId::Find
        | CommandId::FindReplace | CommandId::ToggleLineComment | CommandId::ToggleBlockComment
        | CommandId::JumpToMatchingBracket | CommandId::FoldCurrent | CommandId::UnfoldCurrent
        | CommandId::FoldAll | CommandId::UnfoldAll | CommandId::ToggleWordWrap => "Editor",
        CommandId::FormatDocument | CommandId::RenameSymbol | CommandId::GoToDefinition
        | CommandId::ShowHover | CommandId::CodeActions | CommandId::DocumentSymbols
        | CommandId::FindReferences | CommandId::WorkspaceSymbols => "LSP",
        CommandId::ProjectSearch | CommandId::FindFile | CommandId::NewTab | CommandId::CloseTab
        | CommandId::NextTab | CommandId::PrevTab | CommandId::ToggleSidebar => "Navigation",
        CommandId::RunTask | CommandId::ToggleTerminal => "Terminal",
        CommandId::ToggleMarkdownMode | CommandId::MarkdownSource | CommandId::MarkdownPreview
        | CommandId::MarkdownSplit => "Markdown",
        CommandId::OpenWorkspace | CommandId::ToggleEffects | CommandId::ToggleFps => "System",
    }
}

/// The legend group a palette command is listed under.
pub fn group_for_command(id: CommandId) -> (g: &'static str)
    ensures
        g == group_spec(id),
{
    match id {
        CommandId::Save | CommandId::Undo | CommandId::Redo | CommandId::SelectAll | CommandId::Cut
        | CommandId::Copy | CommandId::Paste | CommandId::DeleteLine | CommandId::DuplicateLine
        | CommandId::MoveLineUp | CommandId::MoveLineDown | CommandId::Find
        | CommandId::FindReplace | CommandId::ToggleLineComment | CommandId::ToggleBlockComment
        | CommandId::JumpToMatchingBracket | CommandId::FoldCurrent | CommandId::UnfoldCurrent
        | CommandId::FoldAll | CommandId::UnfoldAll | CommandId::ToggleWordWrap => "Editor",
        CommandId::FormatDocument | CommandId::RenameSymbol | CommandId::GoToDefinition
        | CommandId::ShowHover | CommandId::CodeActions | CommandId::DocumentSymbols
        | CommandId::FindReferences | CommandId::WorkspaceSymbols => "LSP",
        CommandId::ProjectSearch | CommandId::FindFile | CommandId::NewTab | CommandId::CloseTab
        | CommandId::NextTab | CommandId::PrevTab | CommandId::ToggleSidebar => "Navigation",
        CommandId::RunTask | CommandId::ToggleTerminal => "Terminal",
        CommandId::ToggleMarkdownMode | CommandId::MarkdownSource | CommandId::MarkdownPreview
        | CommandId::MarkdownSplit => "Markdown",
        CommandId::OpenWorkspace | CommandId::ToggleEffects | CommandId::ToggleFps => "System",
    }
}

/// The legend row of a command.
pub open spec fn entry_of(c: Command) -> HotkeyEntry {
    HotkeyEntry { action: c.name, keys: c.keybinding, group: group_spec(c.id) }
}

/// The rows of the commands that have a key binding, in palette order.
pub open spec fn bound_entries(cs: Seq<Command>) -> Seq<HotkeyEntry>
    decreases cs.len(),
{
    if cs.len() == 0 {
        Seq::empty()
    } else if cs.last().keybinding@.len() > 0 {
        bound_entries(cs.drop_last()).push(entry_of(cs.last()))
    } else {
        bound_entries(cs.drop_last())
    }
}

/// Shortcuts that no palette command carries.
pub open spec fn extra_entries() -> Seq<HotkeyEntry> {
    seq![
        HotkeyEntry { action: "Trigger Completion", keys: "Ctrl+Space", group: "LSP" },
        HotkeyEntry { action: "Fold Current", keys: "Cmd+Shift+[", group: "Editor" },
        HotkeyEntry { action: "Unfold Current", keys: "Cmd+Shift+]", group: "Editor" },
        HotkeyEntry { action: "Fold All", keys: "Cmd+K, Cmd+0", group: "Editor" },
        HotkeyEntry { action: "Unfold All", keys: "Cmd+K, Cmd+J", group: "Editor" },
        HotkeyEntry { action: "Add Cursor To Next Match", keys: "Cmd+D", group: "Editor" },
        HotkeyEntry { action: "Select All Occurrences", keys: "Cmd+Shift+L", group: "Editor" },
        HotkeyEntry { action: "Toggle Line Comment", keys: "Cmd+/", group: "Editor" },
        HotkeyEntry { action: "Toggle Block Comment", keys: "Cmd+Shift+/", group: "Editor" },
        HotkeyEntry { action: "Jump To Matching Bracket", keys: "Cmd+Shift+\\", group: "Editor" },
    ]
}

/// Every row of the legend.
pub open spec fn legend_spec() -> Seq<HotkeyEntry> {
    bound_entries(command_table()) + extra_entries()
}

/// Every row of the legend: the bound palette commands, then the extras.
pub fn hotkey_entries() -> (entries: Vec<HotkeyEntry>)
    ensures
        entries@ == legend_spec(),
{
    let all = all_commands();
    let mut entries: Vec<HotkeyEntry> = Vec::new();
    let mut i: usize = 0;
    while i < all.len()
        invariant
            i <= all.len(),
            all@ == command_table(),
            entries@ == bound_entries(all@.take(i as int)),
        decreases all.len() - i,
    {
        let c = all[i];
        assert(all@.take(i + 1).drop_last() =~= all@.take(i as int));
        assert(all@.take(i + 1).last() == c);
        let kv = chars_of(c.keybinding);
        if kv.len() > 0 {
            entries.push(HotkeyEntry { action: c.name, keys: c.keybinding, group: group_for_command(c.id) });
        }
        i += 1;
    }
    assert(all@.take(all.len() as int) =~= all@);
    let ghost bound = entries@;
    let extras = vec![
        HotkeyEntry { action: "Trigger Completion", keys: "Ctrl+Space", group: "LSP" },
        HotkeyEntry { action: "Fold Current", keys: "Cmd+Shift+[", group: "Editor" },
        HotkeyEntry { action: "Unfold Current", keys: "Cmd+Shift+]", group: "Editor" },
        HotkeyEntry { action: "Fold All", keys: "Cmd+K, Cmd+0", group: "Editor" },
        HotkeyEntry { action: "Unfold All", keys: "Cmd+K, Cmd+J", group: "Editor" },
        HotkeyEntry { action: "Add Cursor To Next Match", keys: "Cmd+D", group: "Editor" },
        HotkeyEntry { action: "Select All Occurrences", keys: "Cmd+Shift+L", group: "Editor" },
        HotkeyEntry { action: "Toggle Line Comment", keys: "Cmd+/", group: "Editor" },
        HotkeyEntry { action: "Toggle Block Comment", keys: "Cmd+Shift+/", group: "Editor" },
        HotkeyEntry { action: "Jump To Matching Bracket", keys: "Cmd+Shift+\\", group: "Editor" },
    ];
    assert(extras@ =~= extra_entries());
    let mut j: usize = 0;
    while j < extras.len()
        invariant
            j <= extras.len(),
            extras@ == extra_entries(),
            entries@ == bound + extras@.take(j as int),
        decreases extras.len() - j,
    {
        entries.push(extras[j]);
        assert(bound + extras@.take(j + 1) =~= (bound + extras@.take(j as int)).push(extras@[j as int]));
        j += 1;
    }
    assert(extras@.take(extras.len() as int) =~= extras@);
    entries
}

/// The groups of the legend, in the order it shows them.
pub open spec fn legend_groups() -> Seq<&'static str> {
    seq!["Editor", "Navigation", "LSP", "Markdown", "Terminal", "System"]
}

/// The groups of the legend, in the order it shows them.
pub fn hotkey_groups() -> (groups: Vec<&'static str>)
    ensures
        groups@ == legend_groups(),
{
    let groups = vec!["Editor", "Navigation", "LSP", "Markdown", "Terminal", "System"];
    assert(groups@ =~= legend_groups());
    groups
}

/// The rows of `entries` in group `group`, in order.
pub open spec fn rows_in_group(entries: Seq<HotkeyEntry>, group: Seq<char>) -> Seq<HotkeyEntry>
    decreases entries.len(),
{
    if entries.len() == 0 {
        Seq::empty()
    } else if entries.last().group@ == group {
        rows_in_group(entries.drop_last(), group).push(entries.last())
    } else {
        rows_in_group(entries.drop_last(), group)
    }
}

/// The rows of `entries` in group `group`, in order.
pub fn entries_in_group(entries: &[HotkeyEntry], group: &str) -> (rows: Vec<HotkeyEntry>)
    ensures
        rows@ == rows_in_group(entries@, group@),
{
    let gv = chars_of(group);
    let mut rows: Vec<HotkeyEntry> = Vec::new();
    let mut i: usize = 0;
    while i < entries.len()
        invariant
            i <= entries.len(),
            gv@ == group@,
            rows@ == rows_in_group(entries@.take(i as int), group@),
        decreases entries.len() - i,
    {
        let e = entries[i];
        assert(entries@.take(i + 1).drop_last() =~= entries@.take(i as int));
        assert(entries@.take(i + 1).last() == e);
        let ev = chars_of(e.group);
        if crate::text::chars_eq(ev.as_slice(), gv.as_slice()) {
            rows.push(e);
        }
        i += 1;
    }
    assert(entries@.take(entries.len() as int) =~= entries@);
    rows
}

/// Every palette command's group is one of the legend's groups, so the
/// legend shows every bound command.
pub proof fn law_every_group_is_shown(id: CommandId)
    ensures
        legend_groups().contains(group_spec(id)),
{
    let g = legend_groups();
    assert(g[0] == "Editor");
    assert(g[1] == "Navigation");
    assert(g[2] == "LSP");
    assert(g[3] == "Markdown");
    assert(g[4] == "Terminal");
    assert(g[5] == "System");
}

/// Every palette command with a key binding has a legend row with its
/// name and keys.
pub proof fn law_bound_commands_listed(cs: Seq<Command>, k: int)
    requires
        0 <= k < cs.len(),
        cs[k].keybinding@.len() > 0,
    ensures
        bound_entries(cs).contains(entry_of(cs[k])),
    decreases cs.len(),
{
    if k < cs.len() - 1 {
        assert(cs.drop_last()[k] == cs[k]);
        law_bound_commands_listed(cs.drop_last(), k);
        let prev = bound_entries(cs.drop_last());
        let j = choose|j: int| 0 <= j < prev.len() && prev[j] == entry_of(cs[k]);
        if cs.last().keybinding@.len() > 0 {
            assert(bound_entries(cs)[j] == entry_of(cs[k]));
        }
    } else {
        let prev = bound_entries(cs.drop_last());
        assert(bound_entries(cs)[prev.len() as int] == entry_of(cs[k]));
    }
}

} // verus!
