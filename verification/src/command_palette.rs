//! The command palette: the registered commands, and the fuzzy filter that
//! narrows them as the user types.
use vstd::prelude::*;

use crate::git::{spec_to_lowercase, to_lowercase};
use crate::text::{ascii_lower_seq, chars_of, is_ascii_seq};

verus! {

/// A command that can be run from the palette.
#[derive(Clone, Copy)]
pub struct Command {
    pub name: &'static str,
    pub keybinding: &'static str,
    pub id: CommandId,
}

/// Every command identifier, whether or not the palette lists it.
#[derive(Clone, Copy, Debug, PartialEq, Eq, Structural)]
pub enum CommandId {
    Save,
    Undo,
    Redo,
    SelectAll,
    Cut,
    Copy,
    Paste,
    DeleteLine,
    DuplicateLine,
    MoveLineUp,
    MoveLineDown,
    FormatDocument,
    RenameSymbol,
    GoToDefinition,
    ShowHover,
    CodeActions,
    DocumentSymbols,
    Find,
    FindReplace,
    FindReferences,
    WorkspaceSymbols,
    ProjectSearch,
    RunTask,
    ToggleLineComment,
    ToggleBlockComment,
    JumpToMatchingBracket,
    FoldCurrent,
    UnfoldCurrent,
    FoldAll,
    UnfoldAll,
    ToggleMarkdownMode,
    MarkdownSource,
    MarkdownPreview,
    MarkdownSplit,
    OpenWorkspace,
    FindFile,
    ToggleTerminal,
    ToggleSidebar,
    NewTab,
    CloseTab,
    NextTab,
    PrevTab,
    ToggleEffects,
    ToggleFps,
    ToggleWordWrap,
}

/// The registered commands, in the order the palette lists them.
pub open spec fn command_table() -> Seq<Command> {
    seq![
        Command { name: "Save", keybinding: "Cmd+S", id: CommandId::Save },
        Command { name: "Undo", keybinding: "Cmd+Z", id: CommandId::Undo },
        Command { name: "Redo", keybinding: "Cmd+Shift+Z", id: CommandId::Redo },
        Command { name: "Select All", keybinding: "Cmd+A", id: CommandId::SelectAll },
        Command { name: "Cut", keybinding: "Cmd+X", id: CommandId::Cut },
        Command { name: "Copy", keybinding: "Cmd+C", id: CommandId::Copy },
        Command { name: "Paste", keybinding: "Cmd+V", id: CommandId::Paste },
        Command { name: "Delete Line", keybinding: "Cmd+Shift+K", id: CommandId::DeleteLine },
        Command { name: "Duplicate Line", keybinding: "Cmd+Shift+D", id: CommandId::DuplicateLine },
        Command { name: "Move Line Up", keybinding: "Alt+Up", id: CommandId::MoveLineUp },
        Command { name: "Move Line Down", keybinding: "Alt+Down", id: CommandId::MoveLineDown },
        Command { name: "Format Document", keybinding: "Alt+Shift+F", id: CommandId::FormatDocument },
        Command { name: "Rename Symbol", keybinding: "F2", id: CommandId::RenameSymbol },
        Command { name: "Go to Definition", keybinding: "F12", id: CommandId::GoToDefinition },
        Command { name: "Show Hover Info", keybinding: "F1", id: CommandId::ShowHover },
        Command { name: "Code Actions", keybinding: "Cmd+.", id: CommandId::CodeActions },
        Command { name: "Document Symbols", keybinding: "Cmd+Shift+O", id: CommandId::DocumentSymbols },
        Command { name: "Find", keybinding: "Cmd+F", id: CommandId::Find },
        Command { name: "Find and Replace", keybinding: "Cmd+H", id: CommandId::FindReplace },
        Command { name: "Find References", keybinding: "Shift+F12", id: CommandId::FindReferences },
        Command { name: "Workspace Symbols", keybinding: "Cmd+Shift+T", id: CommandId::WorkspaceSymbols },
        Command { name: "Search in Project", keybinding: "Cmd+Shift+G", id: CommandId::ProjectSearch },
        Command { name: "Run Task", keybinding: "Cmd+Shift+B", id: CommandId::RunTask },
        Command { name: "Open Workspace", keybinding: "", id: CommandId::OpenWorkspace },
        Command { name: "Find File", keybinding: "Cmd+P", id: CommandId::FindFile },
        Command { name: "Toggle Terminal", keybinding: "Cmd+`", id: CommandId::ToggleTerminal },
        Command { name: "Toggle Sidebar", keybinding: "Cmd+B", id: CommandId::ToggleSidebar },
        Command { name: "New Tab", keybinding: "Cmd+T", id: CommandId::NewTab },
        Command { name: "Close Tab", keybinding: "Cmd+W", id: CommandId::CloseTab },
        Command { name: "Next Tab", keybinding: "Cmd+]", id: CommandId::NextTab },
        Command { name: "Previous Tab", keybinding: "Cmd+[", id: CommandId::PrevTab },
        Command { name: "Toggle Effects", keybinding: "Cmd+Shift+F", id: CommandId::ToggleEffects },
        Command { name: "Toggle FPS Overlay", keybinding: "Cmd+Shift+P", id: CommandId::ToggleFps },
    ]
}

/// All registered commands.
pub fn all_commands() -> (v: Vec<Command>)
    ensures
        v@ == command_table(),
{
    let v = vec![
        Command { name: "Save", keybinding: "Cmd+S", id: CommandId::Save },
        Command { name: "Undo", keybinding: "Cmd+Z", id: CommandId::Undo },
        Command { name: "Redo", keybinding: "Cmd+Shift+Z", id: CommandId::Redo },
        Command { name: "Select All", keybinding: "Cmd+A", id: CommandId::SelectAll },
        Command { name: "Cut", keybinding: "Cmd+X", id: CommandId::Cut },
        Command { name: "Copy", keybinding: "Cmd+C", id: CommandId::Copy },
        Command { name: "Paste", keybinding: "Cmd+V", id: CommandId::Paste },
        Command { name: "Delete Line", keybinding: "Cmd+Shift+K", id: CommandId::DeleteLine },
        Command { name: "Duplicate Line", keybinding: "Cmd+Shift+D", id: CommandId::DuplicateLine },
        Command { name: "Move Line Up", keybinding: "Alt+Up", id: CommandId::MoveLineUp },
        Command { name: "Move Line Down", keybinding: "Alt+Down", id: CommandId::MoveLineDown },
        Command { name: "Format Document", keybinding: "Alt+Shift+F", id: CommandId::FormatDocument },
        Command { name: "Rename Symbol", keybinding: "F2", id: CommandId::RenameSymbol },
        Command { name: "Go to Definition", keybinding: "F12", id: CommandId::GoToDefinition },
        Command { name: "Show Hover Info", keybinding: "F1", id: CommandId::ShowHover },
        Command { name: "Code Actions", keybinding: "Cmd+.", id: CommandId::CodeActions },
        Command { name: "Document Symbols", keybinding: "Cmd+Shift+O", id: CommandId::DocumentSymbols },
        Command { name: "Find", keybinding: "Cmd+F", id: CommandId::Find },
        Command { name: "Find and Replace", keybinding: "Cmd+H", id: CommandId::FindReplace },
        Command { name: "Find References", keybinding: "Shift+F12", id: CommandId::FindReferences },
        Command { name: "Workspace Symbols", keybinding: "Cmd+Shift+T", id: CommandId::WorkspaceSymbols },
        Command { name: "Search in Project", keybinding: "Cmd+Shift+G", id: CommandId::ProjectSearch },
        Command { name: "Run Task", keybinding: "Cmd+Shift+B", id: CommandId::RunTask },
        Command { name: "Open Workspace", keybinding: "", id: CommandId::OpenWorkspace },
        Command { name: "Find File", keybinding: "Cmd+P", id: CommandId::FindFile },
        Command { name: "Toggle Terminal", keybinding: "Cmd+`", id: CommandId::ToggleTerminal },
        Command { name: "Toggle Sidebar", keybinding: "Cmd+B", id: CommandId::ToggleSidebar },
        Command { name: "New Tab", keybinding: "Cmd+T", id: CommandId::NewTab },
        Command { name: "Close Tab", keybinding: "Cmd+W", id: CommandId::CloseTab },
        Command { name: "Next Tab", keybinding: "Cmd+]", id: CommandId::NextTab },
        Command { name: "Previous Tab", keybinding: "Cmd+[", id: CommandId::PrevTab },
        Command { name: "Toggle Effects", keybinding: "Cmd+Shift+F", id: CommandId::ToggleEffects },
        Command { name: "Toggle FPS Overlay", keybinding: "Cmd+Shift+P", id: CommandId::ToggleFps },
    ];
    assert(v@ =~= command_table());
    v
}


/// `q` can be read off `t` left to right, skipping characters of `t`.
pub open spec fn is_subsequence(q: Seq<char>, t: Seq<char>) -> bool
    decreases t.len(),
{
    if q.len() == 0 {
        true
    } else if t.len() == 0 {
        false
    } else if q[0] == t[0] {
        is_subsequence(q.skip(1), t.skip(1))
    } else {
        is_subsequence(q, t.skip(1))
    }
}

/// The commands among `cs` whose lowercased name has `q` as a subsequence,
/// in their order.
pub open spec fn filter_commands(cs: Seq<Command>, q: Seq<char>) -> Seq<Command>
    decreases cs.len(),
{
    if cs.len() == 0 {
        Seq::empty()
    } else if is_subsequence(q, spec_to_lowercase(cs.last().name@)) {
        filter_commands(cs.drop_last(), q).push(cs.last())
    } else {
        filter_commands(cs.drop_last(), q)
    }
}

/// Every string is a subsequence of itself.
pub proof fn law_fuzzy_match_reflexive(s: Seq<char>)
    ensures
        is_subsequence(s, s),
    decreases s.len(),
{
    if s.len() > 0 {
        law_fuzzy_match_reflexive(s.skip(1));
    }
}

/// A query that matches a name is no longer than it.
pub proof fn law_fuzzy_match_not_longer(q: Seq<char>, t: Seq<char>)
    requires
        is_subsequence(q, t),
    ensures
        q.len() <= t.len(),
    decreases t.len(),
{
    if q.len() > 0 && t.len() > 0 {
        if q[0] == t[0] {
            law_fuzzy_match_not_longer(q.skip(1), t.skip(1));
        } else {
            law_fuzzy_match_not_longer(q, t.skip(1));
        }
    }
}

/// An empty query keeps every command.
pub proof fn law_empty_query_lists_all(cs: Seq<Command>)
    ensures
        filter_commands(cs, Seq::empty()) == cs,
    decreases cs.len(),
{
    if cs.len() > 0 {
        law_empty_query_lists_all(cs.drop_last());
        assert(cs.drop_last().push(cs.last()) =~= cs);
    }
}

/// The filter keeps only commands of `cs`, each at most once, in order:
/// its result is a subsequence of `cs` in the usual sense.
pub proof fn law_filter_keeps_matching(cs: Seq<Command>, q: Seq<char>, k: int)
    requires
        0 <= k < filter_commands(cs, q).len(),
    ensures
        cs.contains(filter_commands(cs, q)[k]),
        is_subsequence(q, spec_to_lowercase(filter_commands(cs, q)[k].name@)),
    decreases cs.len(),
{
    if cs.len() > 0 {
        let rest = filter_commands(cs.drop_last(), q);
        if k < rest.len() {
            law_filter_keeps_matching(cs.drop_last(), q, k);
            let c = rest[k];
            let j = choose|j: int| 0 <= j < cs.drop_last().len() && cs.drop_last()[j] == c;
            assert(cs[j] == c);
        } else {
            assert(cs[cs.len() - 1] == cs.last());
        }
    }
}

/// A prefix of a query that matches a name matches it too.
pub proof fn law_fuzzy_match_prefix(q1: Seq<char>, q2: Seq<char>, t: Seq<char>)
    requires
        q1.len() <= q2.len(),
        q2.take(q1.len() as int) == q1,
        is_subsequence(q2, t),
    ensures
        is_subsequence(q1, t),
    decreases t.len(),
{
    if q1.len() > 0 {
        assert(q1[0] == q2[0]);
        if q2[0] == t[0] {
            assert(q2.skip(1).take(q1.skip(1).len() as int) =~= q1.skip(1));
            law_fuzzy_match_prefix(q1.skip(1), q2.skip(1), t.skip(1));
        } else {
            law_fuzzy_match_prefix(q1, q2, t.skip(1));
        }
    }
}

/// Typing more of a query never brings a command back: every command that
/// the longer query keeps, the shorter one keeps too, and it keeps no fewer.
/// Stated over the queries as the filter reads them, lowercased.
pub proof fn law_longer_query_narrows(cs: Seq<Command>, q1: Seq<char>, q2: Seq<char>)
    requires
        q1.len() <= q2.len(),
        q2.take(q1.len() as int) == q1,
    ensures
        forall|k: int|
            0 <= k < filter_commands(cs, q2).len() ==> filter_commands(cs, q1).contains(
                #[trigger] filter_commands(cs, q2)[k],
            ),
        filter_commands(cs, q2).len() <= filter_commands(cs, q1).len(),
    decreases cs.len(),
{
    if cs.len() > 0 {
        let c = cs.last();
        let name = spec_to_lowercase(c.name@);
        law_longer_query_narrows(cs.drop_last(), q1, q2);
        let r1 = filter_commands(cs.drop_last(), q1);
        let r2 = filter_commands(cs.drop_last(), q2);
        let f1 = filter_commands(cs, q1);
        let f2 = filter_commands(cs, q2);
        if is_subsequence(q2, name) {
            law_fuzzy_match_prefix(q1, q2, name);
        }
        assert forall|k: int| 0 <= k < f2.len() implies f1.contains(#[trigger] f2[k]) by {
            if k < r2.len() {
                assert(f2[k] == r2[k]);
                assert(r1.contains(r2[k]));
                let j = choose|j: int| 0 <= j < r1.len() && r1[j] == r2[k];
                assert(f1[j] == r1[j]);
            } else {
                assert(f2[k] == c);
                assert(f1[f1.len() - 1] == c);
            }
        }
    }
}

/// For ASCII queries, typing more never brings a command back: when `q1`
/// is the start of `q2`, every command that `q2` keeps (its lowercase form
/// being what the filter reads) is kept by `q1`, and `q1` keeps no fewer.
pub proof fn law_longer_ascii_query_narrows(q1: Seq<char>, q2: Seq<char>)
    requires
        q1.len() <= q2.len(),
        q2.take(q1.len() as int) == q1,
        is_ascii_seq(q2),
    ensures
        is_ascii_seq(q1),
        forall|k: int|
            0 <= k < filter_commands(command_table(), ascii_lower_seq(q2)).len()
                ==> filter_commands(command_table(), ascii_lower_seq(q1)).contains(
                #[trigger] filter_commands(command_table(), ascii_lower_seq(q2))[k],
            ),
        filter_commands(command_table(), ascii_lower_seq(q2)).len() <= filter_commands(
            command_table(),
            ascii_lower_seq(q1),
        ).len(),
{
    assert forall|i: int| 0 <= i < q1.len() implies (#[trigger] q1[i] as u32) < 128 by {
        assert(q1[i] == q2[i]);
    }
    assert(ascii_lower_seq(q2).take(q1.len() as int) =~= ascii_lower_seq(q1));
    law_longer_query_narrows(command_table(), ascii_lower_seq(q1), ascii_lower_seq(q2));
}

/// Whether `query` is a subsequence of `target`.
pub fn fuzzy_match(query: &str, target: &str) -> (b: bool)
    ensures
        b == is_subsequence(query@, target@),
{
    let q = chars_of(query);
    let t = chars_of(target);
    let mut i: usize = 0;
    let mut j: usize = 0;
    assert(q@.skip(0) =~= q@);
    assert(t@.skip(0) =~= t@);
    while i < q.len() && j < t.len()
        invariant
            i <= q.len(),
            j <= t.len(),
            q@ == query@,
            t@ == target@,
            is_subsequence(q@, t@) == is_subsequence(q@.skip(i as int), t@.skip(j as int)),
        decreases t.len() - j,
    {
        assert(q@.skip(i as int)[0] == q@[i as int]);
        assert(t@.skip(j as int)[0] == t@[j as int]);
        assert(t@.skip(j as int).skip(1) =~= t@.skip(j + 1));
        if t[j] == q[i] {
            assert(q@.skip(i as int).skip(1) =~= q@.skip(i + 1));
            i += 1;
        }
        j += 1;
    }
    if i == q.len() {
        assert(q@.skip(i as int).len() == 0);
    }
    i == q.len()
}

/// The palette's state: whether it is open, what was typed, which row is
/// selected and which commands are shown.
pub struct PaletteState {
    pub open: bool,
    pub query: String,
    pub selected: usize,
    pub filtered: Vec<Command>,
}

impl Default for PaletteState {
    fn default() -> (s: PaletteState)
        ensures
            !s.open,
            s.query@.len() == 0,
            s.selected == 0,
            s.filtered@ == command_table(),
    {
        PaletteState { open: false, query: String::new(), selected: 0, filtered: all_commands() }
    }
}

impl PaletteState {
    /// Opens the palette with an empty query and every command listed.
    pub fn open(&mut self)
        ensures
            final(self).open,
            final(self).query@.len() == 0,
            final(self).selected == 0,
            final(self).filtered@ == command_table(),
    {
        self.open = true;
        self.query = String::new();
        self.selected = 0;
        self.filtered = all_commands();
    }

    /// Opens the palette when it is closed, closes it when it is open.
    pub fn toggle(&mut self)
        ensures
            final(self).open == !old(self).open,
            final(self).query@.len() == 0,
            old(self).open ==> final(self).selected == old(self).selected && final(self).filtered@
                == old(self).filtered@,
            !old(self).open ==> final(self).selected == 0 && final(self).filtered@
                == command_table(),
    {
        if self.open {
            self.close();
        } else {
            self.open();
        }
    }

    /// Closes the palette and clears the query.
    pub fn close(&mut self)
        ensures
            !final(self).open,
            final(self).query@.len() == 0,
            final(self).selected == old(self).selected,
            final(self).filtered@ == old(self).filtered@,
    {
        self.open = false;
        self.query = String::new();
    }

    /// Lists the commands whose lowercased name has the lowercased query as
    /// a subsequence, and selects the first.
    pub fn update_filter(&mut self)
        ensures
            final(self).filtered@ == filter_commands(
                command_table(),
                spec_to_lowercase(old(self).query@),
            ),
            is_ascii_seq(old(self).query@) ==> final(self).filtered@ == filter_commands(
                command_table(),
                ascii_lower_seq(old(self).query@),
            ),
            final(self).selected == 0,
            final(self).open == old(self).open,
            final(self).query == old(self).query,
    {
        let q = to_lowercase(self.query.as_str());
        let qv = chars_of(q.as_str());
        if qv.len() == 0 {
            proof {
                assert(q@ =~= Seq::<char>::empty());
                law_empty_query_lists_all(command_table());
            }
            self.filtered = all_commands();
        } else {
            let all = all_commands();
            let mut kept: Vec<Command> = Vec::new();
            let mut i: usize = 0;
            while i < all.len()
                invariant
                    i <= all.len(),
                    all@ == command_table(),
                    kept@ == filter_commands(all@.take(i as int), q@),
                decreases all.len() - i,
            {
                let c = all[i];
                assert(all@.take(i + 1).drop_last() =~= all@.take(i as int));
                assert(all@.take(i + 1).last() == c);
                let lower = to_lowercase(c.name);
                if fuzzy_match(q.as_str(), lower.as_str()) {
                    kept.push(c);
                }
                i += 1;
            }
            assert(all@.take(all.len() as int) =~= all@);
            self.filtered = kept;
        }
        self.selected = 0;
    }

    /// The identifier of the selected command, if the selection is in range.
    pub fn selected_command(&self) -> (r: Option<CommandId>)
        ensures
            r == (if self.selected < self.filtered@.len() {
                Some(self.filtered@[self.selected as int].id)
            } else {
                None
            }),
    {
        if self.selected < self.filtered.len() {
            Some(self.filtered[self.selected].id)
        } else {
            None
        }
    }

    /// Replaces the query and refilters, when it changed.
    pub fn set_query(&mut self, query: String)
        ensures
            if query@ == old(self).query@ {
                *final(self) == *old(self)
            } else {
                final(self).query == query && final(self).filtered@ == filter_commands(
                    command_table(),
                    spec_to_lowercase(query@),
                ) && final(self).selected == 0 && final(self).open == old(self).open
            },
    {
        if query != self.query {
            self.query = query;
            self.update_filter();
        }
    }

    /// Moves the selection one row down, stopping at the last row.
    pub fn move_selection_down(&mut self)
        ensures
            final(self).selected == (if old(self).filtered@.len() == 0 {
                0
            } else if old(self).selected + 1 < old(self).filtered@.len() {
                old(self).selected + 1
            } else {
                old(self).filtered@.len() - 1
            }),
            final(self).filtered == old(self).filtered,
            final(self).query == old(self).query,
            final(self).open == old(self).open,
    {
        let len = self.filtered.len();
        if len == 0 {
            self.selected = 0;
        } else if self.selected < len - 1 {
            self.selected = self.selected + 1;
        } else {
            self.selected = len - 1;
        }
    }

    /// Moves the selection one row up, stopping at the first row.
    pub fn move_selection_up(&mut self)
        ensures
            final(self).selected == (if old(self).selected > 0 {
                old(self).selected - 1
            } else {
                0
            }),
            final(self).filtered == old(self).filtered,
            final(self).query == old(self).query,
            final(self).open == old(self).open,
    {
        if self.selected > 0 {
            self.selected = self.selected - 1;
        }
    }

    /// Takes the selected command and closes the palette.
    pub fn confirm(&mut self) -> (r: Option<CommandId>)
        ensures
            r == (if old(self).selected < old(self).filtered@.len() {
                Some(old(self).filtered@[old(self).selected as int].id)
            } else {
                None
            }),
            !final(self).open,
            final(self).query@.len() == 0,
            final(self).selected == old(self).selected,
            final(self).filtered@ == old(self).filtered@,
    {
        let r = self.selected_command();
        self.close();
        r
    }
}

} // verus!
