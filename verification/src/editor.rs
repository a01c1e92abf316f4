//! The editor state that the UI logic reads: cursor, view and key actions.
use vstd::prelude::*;

use crate::editor_folding::FoldRange;

verus! {

/// A place in a buffer: zero-based line and column (in characters).
#[derive(Clone, Copy, Debug, PartialEq, Eq, Structural)]
pub struct Position {
    pub line: usize,
    pub col: usize,
}

impl Position {
    pub fn new(line: usize, col: usize) -> (p: Position)
        ensures
            p.line == line,
            p.col == col,
    {
        Position { line, col }
    }
}

pub open spec fn pos_le(a: Position, b: Position) -> bool {
    a.line < b.line || (a.line == b.line && a.col <= b.col)
}

/// The primary cursor: its position, the selection anchor and the column
/// that vertical moves try to keep.
#[derive(Clone, Copy, Debug, PartialEq, Eq, Structural)]
pub struct Cursor {
    pub pos: Position,
    pub anchor: Option<Position>,
    pub desired_col: Option<usize>,
}

/// The selected range, start first, when the anchor differs from the cursor.
pub open spec fn selection_spec(c: Cursor) -> Option<(Position, Position)> {
    match c.anchor {
        Some(a) => if a == c.pos {
            None
        } else if pos_le(a, c.pos) {
            Some((a, c.pos))
        } else {
            Some((c.pos, a))
        },
        None => None,
    }
}

impl Cursor {
    pub fn new() -> (c: Cursor)
        ensures
            c.pos == (Position { line: 0, col: 0 }),
            c.anchor is None,
            c.desired_col is None,
    {
        Cursor { pos: Position { line: 0, col: 0 }, anchor: None, desired_col: None }
    }

    pub fn clear_selection(&mut self)
        ensures
            final(self).anchor is None,
            final(self).pos == old(self).pos,
            final(self).desired_col == old(self).desired_col,
    {
        self.anchor = None;
    }

    pub fn selection(&self) -> (r: Option<(Position, Position)>)
        ensures
            r == selection_spec(*self),
    {
        match self.anchor {
            Some(a) => {
                if a == self.pos {
                    None
                } else if a.line < self.pos.line || (a.line == self.pos.line && a.col
                    <= self.pos.col) {
                    Some((a, self.pos))
                } else {
                    Some((self.pos, a))
                }
            },
            None => None,
        }
    }

    pub fn has_selection(&self) -> (b: bool)
        ensures
            b == (selection_spec(*self) is Some),
    {
        self.selection().is_some()
    }
}

/// How a Markdown buffer is shown.
#[derive(Clone, Copy, Debug, PartialEq, Eq, Structural)]
pub enum MarkdownViewMode {
    Source,
    Preview,
    Split,
}

pub open spec fn cycle_spec(m: MarkdownViewMode) -> MarkdownViewMode {
    match m {
        MarkdownViewMode::Source => MarkdownViewMode::Preview,
        MarkdownViewMode::Preview => MarkdownViewMode::Split,
        MarkdownViewMode::Split => MarkdownViewMode::Source,
    }
}

impl MarkdownViewMode {
    /// Source, then Preview, then Split, then Source again.
    pub fn cycle(self) -> (m: MarkdownViewMode)
        ensures
            m == cycle_spec(self),
    {
        match self {
            MarkdownViewMode::Source => MarkdownViewMode::Preview,
            MarkdownViewMode::Preview => MarkdownViewMode::Split,
            MarkdownViewMode::Split => MarkdownViewMode::Source,
        }
    }
}

/// Cycling the Markdown mode three times comes back to the start.
pub proof fn law_markdown_cycle_period(m: MarkdownViewMode)
    ensures
        cycle_spec(cycle_spec(cycle_spec(m))) == m,
        cycle_spec(m) != m,
{
}

/// The stable identity of an open buffer, kept while buffers move in the list.
#[derive(Clone, Copy, Debug, PartialEq, Eq, Hash, Structural)]
pub struct BufferId(pub u64);

/// What the editor shows of one buffer.
#[derive(Clone, Debug)]
pub struct BufferView {
    pub cursor: Cursor,
    pub folded_ranges: Vec<FoldRange>,
    pub markdown_mode: MarkdownViewMode,
}

impl Default for BufferView {
    fn default() -> (v: BufferView)
        ensures
            v.cursor.pos == (Position { line: 0, col: 0 }),
            v.cursor.anchor is None,
            v.cursor.desired_col is None,
            v.folded_ranges@.len() == 0,
            v.markdown_mode == MarkdownViewMode::Source,
    {
        BufferView {
            cursor: Cursor::new(),
            folded_ranges: Vec::new(),
            markdown_mode: MarkdownViewMode::Source,
        }
    }
}

/// The editor commands that one key press triggers.
#[derive(Clone, Copy, Debug)]
pub struct KeyAction {
    pub save: bool,
    pub undo: bool,
    pub redo: bool,
    pub select_all: bool,
    pub cut: bool,
    pub copy: bool,
    pub paste: bool,
    pub delete_line: bool,
    pub duplicate_line: bool,
    pub move_line_up: bool,
    pub move_line_down: bool,
    pub toggle_line_comment: bool,
    pub toggle_block_comment: bool,
    pub jump_to_matching_bracket: bool,
    pub goto_definition: bool,
    pub request_hover: bool,
    pub request_completion: bool,
    pub format_document: bool,
    pub rename_symbol: bool,
    pub code_actions: bool,
    pub open_file_finder: bool,
    pub document_symbols: bool,
    pub workspace_symbols: bool,
    pub find_references: bool,
    pub open_find: bool,
    pub open_find_replace: bool,
    pub project_search: bool,
    pub run_task: bool,
    pub fold_all: bool,
    pub unfold_all: bool,
    pub fold_current: bool,
    pub unfold_current: bool,
}

pub open spec fn no_keys(a: KeyAction) -> bool {
    !a.save && !a.undo && !a.redo && !a.select_all && !a.cut && !a.copy && !a.paste
        && !a.delete_line && !a.duplicate_line && !a.move_line_up && !a.move_line_down
        && !a.toggle_line_comment && !a.toggle_block_comment && !a.jump_to_matching_bracket
        && !a.goto_definition && !a.request_hover && !a.request_completion
        && !a.format_document && !a.rename_symbol && !a.code_actions && !a.open_file_finder
        && !a.document_symbols && !a.workspace_symbols && !a.find_references && !a.open_find
        && !a.open_find_replace && !a.project_search && !a.run_task && !a.fold_all
        && !a.unfold_all && !a.fold_current && !a.unfold_current
}

impl Default for KeyAction {
    fn default() -> (a: KeyAction)
        ensures
            no_keys(a),
    {
        KeyAction {
            save: false,
            undo: false,
            redo: false,
            select_all: false,
            cut: false,
            copy: false,
            paste: false,
            delete_line: false,
            duplicate_line: false,
            move_line_up: false,
            move_line_down: false,
            toggle_line_comment: false,
            toggle_block_comment: false,
            jump_to_matching_bracket: false,
            goto_definition: false,
            request_hover: false,
            request_completion: false,
            format_document: false,
            rename_symbol: false,
            code_actions: false,
            open_file_finder: false,
            document_symbols: false,
            workspace_symbols: false,
            find_references: false,
            open_find: false,
            open_find_replace: false,
            project_search: false,
            run_task: false,
            fold_all: false,
            unfold_all: false,
            fold_current: false,
            unfold_current: false,
        }
    }
}

} // verus!
