//! Editor commands: what a palette entry or a key press asks the editor to do.
use vstd::prelude::*;

use crate::command_palette::CommandId;
use crate::editor::{KeyAction, MarkdownViewMode};

verus! {

/// A command the editor carries out on the active buffer.
#[derive(Clone, Copy, Debug, PartialEq, Eq, Structural)]
pub enum EditorCommand {
    Save,
    Undo,
    Redo,
    SelectAll,
    Cut,
    Copy,
    Paste,
    DeleteLine,
    DuplicateLine,
    MoveLineUp,
    MoveLineDown,
    ToggleLineComment,
    ToggleBlockComment,
    JumpToMatchingBracket,
    FoldCurrent,
    UnfoldCurrent,
    FoldAll,
    UnfoldAll,
    FormatDocument,
    RenameSymbol,
    GoToDefinition,
    ShowHover,
    RequestCompletion,
    CodeActions,
    DocumentSymbols,
    Find,
    FindReplace,
    FindReferences,
    WorkspaceSymbols,
    ProjectSearch,
    RunTask,
    FindFile,
    ToggleMarkdownMode,
    SetMarkdownMode(MarkdownViewMode),
}

/// The editor command a palette entry stands for; the application's own
/// commands (tabs, panels, effects) stand for none.
pub open spec fn palette_command(id: CommandId) -> Option<EditorCommand> {
    match id {
        CommandId::Save => Some(EditorCommand::Save),
        CommandId::Undo => Some(EditorCommand::Undo),
        CommandId::Redo => Some(EditorCommand::Redo),
        CommandId::SelectAll => Some(EditorCommand::SelectAll),
        CommandId::Cut => Some(EditorCommand::Cut),
        CommandId::Copy => Some(EditorCommand::Copy),
        CommandId::Paste => Some(EditorCommand::Paste),
        CommandId::DeleteLine => Some(EditorCommand::DeleteLine),
        CommandId::DuplicateLine => Some(EditorCommand::DuplicateLine),
        CommandId::MoveLineUp => Some(EditorCommand::MoveLineUp),
        CommandId::MoveLineDown => Some(EditorCommand::MoveLineDown),
        CommandId::ToggleLineComment => Some(EditorCommand::ToggleLineComment),
        CommandId::ToggleBlockComment => Some(EditorCommand::ToggleBlockComment),
        CommandId::JumpToMatchingBracket => Some(EditorCommand::JumpToMatchingBracket),
        CommandId::FoldCurrent => Some(EditorCommand::FoldCurrent),
        CommandId::UnfoldCurrent => Some(EditorCommand::UnfoldCurrent),
        CommandId::FoldAll => Some(EditorCommand::FoldAll),
        CommandId::UnfoldAll => Some(EditorCommand::UnfoldAll),
        CommandId::FormatDocument => Some(EditorCommand::FormatDocument),
        CommandId::RenameSymbol => Some(EditorCommand::RenameSymbol),
        CommandId::GoToDefinition => Some(EditorCommand::GoToDefinition),
        CommandId::ShowHover => Some(EditorCommand::ShowHover),
        CommandId::CodeActions => Some(EditorCommand::CodeActions),
        CommandId::DocumentSymbols => Some(EditorCommand::DocumentSymbols),
        CommandId::Find => Some(EditorCommand::Find),
        CommandId::FindReplace => Some(EditorCommand::FindReplace),
        CommandId::FindReferences => Some(EditorCommand::FindReferences),
        CommandId::WorkspaceSymbols => Some(EditorCommand::WorkspaceSymbols),
        CommandId::ProjectSearch => Some(EditorCommand::ProjectSearch),
        CommandId::RunTask => Some(EditorCommand::RunTask),
        CommandId::FindFile => Some(EditorCommand::FindFile),
        CommandId::ToggleMarkdownMode => Some(EditorCommand::ToggleMarkdownMode),
        CommandId::MarkdownSource => Some(EditorCommand::SetMarkdownMode(MarkdownViewMode::Source)),
        CommandId::MarkdownPreview => Some(EditorCommand::SetMarkdownMode(MarkdownViewMode::Preview)),
        CommandId::MarkdownSplit => Some(EditorCommand::SetMarkdownMode(MarkdownViewMode::Split)),
        _ => None,
    }
}

/// Distinct palette entries never stand for the same editor command.
pub proof fn law_palette_command_injective(a: CommandId, b: CommandId)
    requires
        palette_command(a) is Some,
        palette_command(a) == palette_command(b),
    ensures
        a == b,
{
}

impl EditorCommand {
    /// The editor command a palette entry stands for, if any.
    pub fn from_palette(id: CommandId) -> (r: Option<EditorCommand>)
        ensures
            r == palette_command(id),
    {
        Some(match id {
            CommandId::Save => EditorCommand::Save,
            CommandId::Undo => EditorCommand::Undo,
            CommandId::Redo => EditorCommand::Redo,
            CommandId::SelectAll => EditorCommand::SelectAll,
            CommandId::Cut => EditorCommand::Cut,
            CommandId::Copy => EditorCommand::Copy,
            CommandId::Paste => EditorCommand::Paste,
            CommandId::DeleteLine => EditorCommand::DeleteLine,
            CommandId::DuplicateLine => EditorCommand::DuplicateLine,
            CommandId::MoveLineUp => EditorCommand::MoveLineUp,
            CommandId::MoveLineDown => EditorCommand::MoveLineDown,
            CommandId::ToggleLineComment => EditorCommand::ToggleLineComment,
            CommandId::ToggleBlockComment => EditorCommand::ToggleBlockComment,
            CommandId::JumpToMatchingBracket => EditorCommand::JumpToMatchingBracket,
            CommandId::FoldCurrent => EditorCommand::FoldCurrent,
            CommandId::UnfoldCurrent => EditorCommand::UnfoldCurrent,
            CommandId::FoldAll => EditorCommand::FoldAll,
            CommandId::UnfoldAll => EditorCommand::UnfoldAll,
            CommandId::FormatDocument => EditorCommand::FormatDocument,
            CommandId::RenameSymbol => EditorCommand::RenameSymbol,
            CommandId::GoToDefinition => EditorCommand::GoToDefinition,
            CommandId::ShowHover => EditorCommand::ShowHover,
            CommandId::CodeActions => EditorCommand::CodeActions,
            CommandId::DocumentSymbols => EditorCommand::DocumentSymbols,
            CommandId::Find => EditorCommand::Find,
            CommandId::FindReplace => EditorCommand::FindReplace,
            CommandId::FindReferences => EditorCommand::FindReferences,
            CommandId::WorkspaceSymbols => EditorCommand::WorkspaceSymbols,
            CommandId::ProjectSearch => EditorCommand::ProjectSearch,
            CommandId::RunTask => EditorCommand::RunTask,
            CommandId::FindFile => EditorCommand::FindFile,
            CommandId::ToggleMarkdownMode => EditorCommand::ToggleMarkdownMode,
            CommandId::MarkdownSource => EditorCommand::SetMarkdownMode(MarkdownViewMode::Source),
            CommandId::MarkdownPreview => EditorCommand::SetMarkdownMode(MarkdownViewMode::Preview),
            CommandId::MarkdownSplit => EditorCommand::SetMarkdownMode(MarkdownViewMode::Split),
            CommandId::OpenWorkspace
            | CommandId::ToggleTerminal
            | CommandId::ToggleSidebar
            | CommandId::NewTab
            | CommandId::CloseTab
            | CommandId::NextTab
            | CommandId::PrevTab
            | CommandId::ToggleWordWrap
            | CommandId::ToggleEffects
            | CommandId::ToggleFps => return None,
        })
    }
}

/// Each key flag of a key press with the command it triggers, in dispatch order.
pub open spec fn key_command_table(a: KeyAction) -> Seq<(bool, EditorCommand)> {
    seq![
        (a.save, EditorCommand::Save),
        (a.undo, EditorCommand::Undo),
        (a.redo, EditorCommand::Redo),
        (a.select_all, EditorCommand::SelectAll),
        (a.cut, EditorCommand::Cut),
        (a.copy, EditorCommand::Copy),
        (a.paste, EditorCommand::Paste),
        (a.delete_line, EditorCommand::DeleteLine),
        (a.duplicate_line, EditorCommand::DuplicateLine),
        (a.move_line_up, EditorCommand::MoveLineUp),
        (a.move_line_down, EditorCommand::MoveLineDown),
        (a.toggle_line_comment, EditorCommand::ToggleLineComment),
        (a.toggle_block_comment, EditorCommand::ToggleBlockComment),
        (a.jump_to_matching_bracket, EditorCommand::JumpToMatchingBracket),
        (a.goto_definition, EditorCommand::GoToDefinition),
        (a.request_hover, EditorCommand::ShowHover),
        (a.request_completion, EditorCommand::RequestCompletion),
        (a.format_document, EditorCommand::FormatDocument),
        (a.rename_symbol, EditorCommand::RenameSymbol),
        (a.code_actions, EditorCommand::CodeActions),
        (a.open_file_finder, EditorCommand::FindFile),
        (a.document_symbols, EditorCommand::DocumentSymbols),
        (a.workspace_symbols, EditorCommand::WorkspaceSymbols),
        (a.find_references, EditorCommand::FindReferences),
        (a.open_find, EditorCommand::Find),
        (a.open_find_replace, EditorCommand::FindReplace),
        (a.project_search, EditorCommand::ProjectSearch),
        (a.run_task, EditorCommand::RunTask),
    ]
}

/// The commands of the pairs whose flag is set, in order.
pub open spec fn enabled_commands(pairs: Seq<(bool, EditorCommand)>) -> Seq<EditorCommand>
    decreases pairs.len(),
{
    if pairs.len() == 0 {
        Seq::empty()
    } else if pairs.last().0 {
        enabled_commands(pairs.drop_last()).push(pairs.last().1)
    } else {
        enabled_commands(pairs.drop_last())
    }
}

/// The key flag of a key press that asks for `c`; commands that no key
/// flag asks for (folding, the Markdown modes) have none.
pub open spec fn command_flag(a: KeyAction, c: EditorCommand) -> bool {
    match c {
        EditorCommand::Save => a.save,
        EditorCommand::Undo => a.undo,
        EditorCommand::Redo => a.redo,
        EditorCommand::SelectAll => a.select_all,
        EditorCommand::Cut => a.cut,
        EditorCommand::Copy => a.copy,
        EditorCommand::Paste => a.paste,
        EditorCommand::DeleteLine => a.delete_line,
        EditorCommand::DuplicateLine => a.duplicate_line,
        EditorCommand::MoveLineUp => a.move_line_up,
        EditorCommand::MoveLineDown => a.move_line_down,
        EditorCommand::ToggleLineComment => a.toggle_line_comment,
        EditorCommand::ToggleBlockComment => a.toggle_block_comment,
        EditorCommand::JumpToMatchingBracket => a.jump_to_matching_bracket,
        EditorCommand::GoToDefinition => a.goto_definition,
        EditorCommand::ShowHover => a.request_hover,
        EditorCommand::RequestCompletion => a.request_completion,
        EditorCommand::FormatDocument => a.format_document,
        EditorCommand::RenameSymbol => a.rename_symbol,
        EditorCommand::CodeActions => a.code_actions,
        EditorCommand::FindFile => a.open_file_finder,
        EditorCommand::DocumentSymbols => a.document_symbols,
        EditorCommand::WorkspaceSymbols => a.workspace_symbols,
        EditorCommand::FindReferences => a.find_references,
        EditorCommand::Find => a.open_find,
        EditorCommand::FindReplace => a.open_find_replace,
        EditorCommand::ProjectSearch => a.project_search,
        EditorCommand::RunTask => a.run_task,
        _ => false,
    }
}

/// A pair whose flag is set puts its command among the enabled ones.
proof fn lemma_enabled_has(pairs: Seq<(bool, EditorCommand)>, i: int)
    requires
        0 <= i < pairs.len(),
        pairs[i].0,
    ensures
        enabled_commands(pairs).contains(pairs[i].1),
    decreases pairs.len(),
{
    if i == pairs.len() - 1 {
        let r = enabled_commands(pairs);
        assert(r[r.len() - 1] == pairs[i].1);
    } else {
        lemma_enabled_has(pairs.drop_last(), i);
        let r0 = enabled_commands(pairs.drop_last());
        let k = choose|k: int| 0 <= k < r0.len() && r0[k] == pairs[i].1;
        let r = enabled_commands(pairs);
        assert(r[k] == r0[k]);
    }
}

/// Every enabled command comes from a pair whose flag is set.
proof fn lemma_enabled_from(pairs: Seq<(bool, EditorCommand)>, k: int)
    requires
        0 <= k < enabled_commands(pairs).len(),
    ensures
        exists|i: int| 0 <= i < pairs.len() && pairs[i].0 && pairs[i].1 == enabled_commands(pairs)[k],
    decreases pairs.len(),
{
    let r = enabled_commands(pairs);
    let r0 = enabled_commands(pairs.drop_last());
    if pairs.last().0 && k == r.len() - 1 {
        assert(pairs[pairs.len() - 1].1 == r[k]);
    } else {
        lemma_enabled_from(pairs.drop_last(), k);
        assert(r[k] == r0[k]);
        let i = choose|i: int|
            0 <= i < pairs.drop_last().len() && pairs.drop_last()[i].0 && pairs.drop_last()[i].1 == r0[k];
        assert(pairs[i] == pairs.drop_last()[i]);
    }
}

/// The place of a command in the key table's order; -1 for commands that
/// no key flag asks for.
spec fn key_order(c: EditorCommand) -> int {
    match c {
        EditorCommand::Save => 0,
        EditorCommand::Undo => 1,
        EditorCommand::Redo => 2,
        EditorCommand::SelectAll => 3,
        EditorCommand::Cut => 4,
        EditorCommand::Copy => 5,
        EditorCommand::Paste => 6,
        EditorCommand::DeleteLine => 7,
        EditorCommand::DuplicateLine => 8,
        EditorCommand::MoveLineUp => 9,
        EditorCommand::MoveLineDown => 10,
        EditorCommand::ToggleLineComment => 11,
        EditorCommand::ToggleBlockComment => 12,
        EditorCommand::JumpToMatchingBracket => 13,
        EditorCommand::GoToDefinition => 14,
        EditorCommand::ShowHover => 15,
        EditorCommand::RequestCompletion => 16,
        EditorCommand::FormatDocument => 17,
        EditorCommand::RenameSymbol => 18,
        EditorCommand::CodeActions => 19,
        EditorCommand::FindFile => 20,
        EditorCommand::DocumentSymbols => 21,
        EditorCommand::WorkspaceSymbols => 22,
        EditorCommand::FindReferences => 23,
        EditorCommand::Find => 24,
        EditorCommand::FindReplace => 25,
        EditorCommand::ProjectSearch => 26,
        EditorCommand::RunTask => 27,
        _ => -1,
    }
}

/// The command at place `i` of the key table's order.
spec fn key_at(i: int) -> EditorCommand {
    if i == 0 {
        EditorCommand::Save
    } else if i == 1 {
        EditorCommand::Undo
    } else if i == 2 {
        EditorCommand::Redo
    } else if i == 3 {
        EditorCommand::SelectAll
    } else if i == 4 {
        EditorCommand::Cut
    } else if i == 5 {
        EditorCommand::Copy
    } else if i == 6 {
        EditorCommand::Paste
    } else if i == 7 {
        EditorCommand::DeleteLine
    } else if i == 8 {
        EditorCommand::DuplicateLine
    } else if i == 9 {
        EditorCommand::MoveLineUp
    } else if i == 10 {
        EditorCommand::MoveLineDown
    } else if i == 11 {
        EditorCommand::ToggleLineComment
    } else if i == 12 {
        EditorCommand::ToggleBlockComment
    } else if i == 13 {
        EditorCommand::JumpToMatchingBracket
    } else if i == 14 {
        EditorCommand::GoToDefinition
    } else if i == 15 {
        EditorCommand::ShowHover
    } else if i == 16 {
        EditorCommand::RequestCompletion
    } else if i == 17 {
        EditorCommand::FormatDocument
    } else if i == 18 {
        EditorCommand::RenameSymbol
    } else if i == 19 {
        EditorCommand::CodeActions
    } else if i == 20 {
        EditorCommand::FindFile
    } else if i == 21 {
        EditorCommand::DocumentSymbols
    } else if i == 22 {
        EditorCommand::WorkspaceSymbols
    } else if i == 23 {
        EditorCommand::FindReferences
    } else if i == 24 {
        EditorCommand::Find
    } else if i == 25 {
        EditorCommand::FindReplace
    } else if i == 26 {
        EditorCommand::ProjectSearch
    } else {
        EditorCommand::RunTask
    }
}

/// `key_at` undoes `key_order`.
proof fn lemma_key_order(c: EditorCommand)
    ensures
        key_order(c) >= 0 ==> key_order(c) < 28 && key_at(key_order(c)) == c,
{
}

/// `key_order` undoes `key_at`.
proof fn lemma_key_at(i: int)
    requires
        0 <= i < 28,
    ensures
        key_order(key_at(i)) == i,
{
}

/// Place `i` of the key table holds the command at place `i` with that
/// command's own flag.
#[verifier::spinoff_prover]
proof fn lemma_table_slot(a: KeyAction, i: int)
    requires
        0 <= i < 28,
    ensures
        key_command_table(a).len() == 28,
        key_command_table(a)[i] == (command_flag(a, key_at(i)), key_at(i)),
{
    let t = key_command_table(a);
    if i == 0 {
        assert(t[0] == (a.save, EditorCommand::Save));
    } else if i == 1 {
        assert(t[1] == (a.undo, EditorCommand::Undo));
    } else if i == 2 {
        assert(t[2] == (a.redo, EditorCommand::Redo));
    } else if i == 3 {
        assert(t[3] == (a.select_all, EditorCommand::SelectAll));
    } else if i == 4 {
        assert(t[4] == (a.cut, EditorCommand::Cut));
    } else if i == 5 {
        assert(t[5] == (a.copy, EditorCommand::Copy));
    } else if i == 6 {
        assert(t[6] == (a.paste, EditorCommand::Paste));
    } else if i == 7 {
        assert(t[7] == (a.delete_line, EditorCommand::DeleteLine));
    } else if i == 8 {
        assert(t[8] == (a.duplicate_line, EditorCommand::DuplicateLine));
    } else if i == 9 {
        assert(t[9] == (a.move_line_up, EditorCommand::MoveLineUp));
    } else if i == 10 {
        assert(t[10] == (a.move_line_down, EditorCommand::MoveLineDown));
    } else if i == 11 {
        assert(t[11] == (a.toggle_line_comment, EditorCommand::ToggleLineComment));
    } else if i == 12 {
        assert(t[12] == (a.toggle_block_comment, EditorCommand::ToggleBlockComment));
    } else if i == 13 {
        assert(t[13] == (a.jump_to_matching_bracket, EditorCommand::JumpToMatchingBracket));
    } else if i == 14 {
        assert(t[14] == (a.goto_definition, EditorCommand::GoToDefinition));
    } else if i == 15 {
        assert(t[15] == (a.request_hover, EditorCommand::ShowHover));
    } else if i == 16 {
        assert(t[16] == (a.request_completion, EditorCommand::RequestCompletion));
    } else if i == 17 {
        assert(t[17] == (a.format_document, EditorCommand::FormatDocument));
    } else if i == 18 {
        assert(t[18] == (a.rename_symbol, EditorCommand::RenameSymbol));
    } else if i == 19 {
        assert(t[19] == (a.code_actions, EditorCommand::CodeActions));
    } else if i == 20 {
        assert(t[20] == (a.open_file_finder, EditorCommand::FindFile));
    } else if i == 21 {
        assert(t[21] == (a.document_symbols, EditorCommand::DocumentSymbols));
    } else if i == 22 {
        assert(t[22] == (a.workspace_symbols, EditorCommand::WorkspaceSymbols));
    } else if i == 23 {
        assert(t[23] == (a.find_references, EditorCommand::FindReferences));
    } else if i == 24 {
        assert(t[24] == (a.open_find, EditorCommand::Find));
    } else if i == 25 {
        assert(t[25] == (a.open_find_replace, EditorCommand::FindReplace));
    } else if i == 26 {
        assert(t[26] == (a.project_search, EditorCommand::ProjectSearch));
    } else if i == 27 {
        assert(t[27] == (a.run_task, EditorCommand::RunTask));
    }
}

/// A command whose flag is set is among those the key table enables.
proof fn lemma_flag_enables(a: KeyAction, c: EditorCommand)
    requires
        command_flag(a, c),
    ensures
        enabled_commands(key_command_table(a)).contains(c),
{
    lemma_key_order(c);
    let i = key_order(c);
    lemma_table_slot(a, i);
    lemma_enabled_has(key_command_table(a), i);
}

/// A key press triggers a command exactly when the command's own key flag
/// is set: cut gives Cut, copy gives Copy, and so on for every flag.
pub proof fn law_key_commands_follow_flags(a: KeyAction, c: EditorCommand)
    ensures
        enabled_commands(key_command_table(a)).contains(c) <==> command_flag(a, c),
{
    let t = key_command_table(a);
    lemma_table_slot(a, 0);
    if enabled_commands(t).contains(c) {
        let k = choose|k: int| 0 <= k < enabled_commands(t).len() && enabled_commands(t)[k] == c;
        lemma_enabled_from(t, k);
        let i = choose|i: int| 0 <= i < t.len() && t[i].0 && t[i].1 == enabled_commands(t)[k];
        lemma_table_slot(a, i);
    }
    if command_flag(a, c) {
        lemma_flag_enables(a, c);
    }
}

/// From pairs whose commands differ, the enabled commands differ.
proof fn lemma_enabled_distinct(pairs: Seq<(bool, EditorCommand)>)
    requires
        forall|i: int, j: int| 0 <= i < j < pairs.len() ==> pairs[i].1 != pairs[j].1,
    ensures
        enabled_commands(pairs).no_duplicates(),
    decreases pairs.len(),
{
    if pairs.len() > 0 {
        let p0 = pairs.drop_last();
        assert forall|i: int, j: int| 0 <= i < j < p0.len() implies p0[i].1 != p0[j].1 by {
            assert(p0[i] == pairs[i] && p0[j] == pairs[j]);
        }
        lemma_enabled_distinct(p0);
        let r0 = enabled_commands(p0);
        if pairs.last().0 {
            assert forall|k: int| 0 <= k < r0.len() implies r0[k] != pairs.last().1 by {
                lemma_enabled_from(p0, k);
                let i = choose|i: int| 0 <= i < p0.len() && p0[i].0 && p0[i].1 == r0[k];
                assert(p0[i] == pairs[i]);
                assert(pairs[pairs.len() - 1] == pairs.last());
            }
            let r = enabled_commands(pairs);
            assert forall|i: int, j: int| 0 <= i < r.len() && 0 <= j < r.len() && i != j implies r[i]
                != r[j] by {
                if i < r0.len() && j < r0.len() {
                    assert(r[i] == r0[i] && r[j] == r0[j]);
                } else if i < r0.len() {
                    assert(r[i] == r0[i]);
                } else {
                    assert(r[j] == r0[j]);
                }
            }
        }
    }
}

/// A key press triggers each of its commands once.
pub proof fn law_key_commands_once(a: KeyAction)
    ensures
        enabled_commands(key_command_table(a)).no_duplicates(),
{
    let t = key_command_table(a);
    lemma_table_slot(a, 0);
    assert forall|i: int, j: int| 0 <= i < j < t.len() implies t[i].1 != t[j].1 by {
        lemma_table_slot(a, i);
        lemma_table_slot(a, j);
        lemma_key_at(i);
        lemma_key_at(j);
    }
    lemma_enabled_distinct(t);
}

/// The editor commands one key press triggers, in dispatch order.
pub fn key_action_commands(action: &KeyAction) -> (r: Vec<EditorCommand>)
    ensures
        r@ == enabled_commands(key_command_table(*action)),
{
    let table = vec![
        (action.save, EditorCommand::Save),
        (action.undo, EditorCommand::Undo),
        (action.redo, EditorCommand::Redo),
        (action.select_all, EditorCommand::SelectAll),
        (action.cut, EditorCommand::Cut),
        (action.copy, EditorCommand::Copy),
        (action.paste, EditorCommand::Paste),
        (action.delete_line, EditorCommand::DeleteLine),
        (action.duplicate_line, EditorCommand::DuplicateLine),
        (action.move_line_up, EditorCommand::MoveLineUp),
        (action.move_line_down, EditorCommand::MoveLineDown),
        (action.toggle_line_comment, EditorCommand::ToggleLineComment),
        (action.toggle_block_comment, EditorCommand::ToggleBlockComment),
        (action.jump_to_matching_bracket, EditorCommand::JumpToMatchingBracket),
        (action.goto_definition, EditorCommand::GoToDefinition),
        (action.request_hover, EditorCommand::ShowHover),
        (action.request_completion, EditorCommand::RequestCompletion),
        (action.format_document, EditorCommand::FormatDocument),
        (action.rename_symbol, EditorCommand::RenameSymbol),
        (action.code_actions, EditorCommand::CodeActions),
        (action.open_file_finder, EditorCommand::FindFile),
        (action.document_symbols, EditorCommand::DocumentSymbols),
        (action.workspace_symbols, EditorCommand::WorkspaceSymbols),
        (action.find_references, EditorCommand::FindReferences),
        (action.open_find, EditorCommand::Find),
        (action.open_find_replace, EditorCommand::FindReplace),
        (action.project_search, EditorCommand::ProjectSearch),
        (action.run_task, EditorCommand::RunTask),
    ];
    assert(table@ =~= key_command_table(*action));
    let mut r: Vec<EditorCommand> = Vec::new();
    let mut i: usize = 0;
    while i < table.len()
        invariant
            i <= table.len(),
            table@ == key_command_table(*action),
            r@ == enabled_commands(table@.take(i as int)),
        decreases table.len() - i,
    {
        assert(table@.take(i + 1).drop_last() =~= table@.take(i as int));
        let (enabled, command) = table[i];
        if enabled {
            r.push(command);
        }
        i += 1;
    }
    assert(table@.take(table.len() as int) =~= table@);
    r
}

} // verus!
