//! The editor's status line.
use vstd::prelude::*;

use crate::editor_paint::IndentStyle;
use crate::text::{decimal, extend_chars, push_decimal, push_str_chars, string_of};

verus! {

/// The mode of the Vim key bindings, when they are on.
#[derive(Clone, Copy, Debug, PartialEq, Eq, Structural)]
pub enum VimMode {
    Normal,
    Insert,
    Visual,
}

/// The key binding preset in use.
#[derive(Clone, Copy, Debug, PartialEq, Eq, Structural)]
pub enum KeybindingPreset {
    VsCode,
    Vim,
    Emacs,
}

/// What the status line reports of the active buffer.
pub struct StatusInput<'a> {
    /// Zero-based cursor line and column.
    pub line: usize,
    pub col: usize,
    pub line_count: usize,
    pub indent_style: IndentStyle,
    pub word_wrap: bool,
    pub modified: bool,
    pub diagnostic_count: usize,
    pub lsp_status: &'a str,
    pub vim_mode: Option<VimMode>,
    pub keybinding_preset: KeybindingPreset,
    /// What the large-file limits switch off, when they apply.
    pub large_file_label: Option<&'a str>,
}

pub open spec fn sep() -> Seq<char> {
    "  |  "@
}

pub open spec fn indent_label(style: IndentStyle) -> Seq<char> {
    match style {
        IndentStyle::Spaces(n) => "Spaces: "@ + decimal(n as nat),
        IndentStyle::Tabs => "Tabs"@,
    }
}

pub open spec fn diagnostics_label(n: usize) -> Seq<char> {
    if n == 0 {
        Seq::empty()
    } else if n == 1 {
        sep() + decimal(n as nat) + " diagnostic"@
    } else {
        sep() + decimal(n as nat) + " diagnostics"@
    }
}

pub open spec fn vim_label(m: Option<VimMode>) -> Seq<char> {
    match m {
        Some(VimMode::Normal) => "  |  VIM NORMAL"@,
        Some(VimMode::Insert) => "  |  VIM INSERT"@,
        Some(VimMode::Visual) => "  |  VIM VISUAL"@,
        None => Seq::empty(),
    }
}

pub open spec fn preset_label(p: KeybindingPreset) -> Seq<char> {
    match p {
        KeybindingPreset::Emacs => "  |  Emacs"@,
        _ => Seq::empty(),
    }
}

pub open spec fn optional_part(s: Seq<char>) -> Seq<char> {
    if s.len() == 0 {
        Seq::empty()
    } else {
        sep() + s
    }
}

/// Position (one-based), line count, indentation, wrap and save state.
pub open spec fn status_head(input: StatusInput) -> Seq<char> {
    "Ln "@ + decimal(input.line as nat + 1) + ", Col "@ + decimal(input.col as nat + 1) + sep()
        + decimal(input.line_count as nat) + " lines"@ + sep() + indent_label(input.indent_style)
        + sep() + (if input.word_wrap {
        "Wrap"@
    } else {
        "No wrap"@
    }) + sep() + (if input.modified {
        "Modified"@
    } else {
        "Saved"@
    })
}

/// The parts of the status line that apply only sometimes.
pub open spec fn status_tail(input: StatusInput) -> Seq<char> {
    diagnostics_label(input.diagnostic_count) + optional_part(input.lsp_status@) + vim_label(
        input.vim_mode,
    ) + preset_label(input.keybinding_preset) + match input.large_file_label {
        Some(l) => sep() + l@,
        None => Seq::empty(),
    }
}

/// The status line.
pub open spec fn status_spec(input: StatusInput) -> Seq<char> {
    status_head(input) + status_tail(input)
}

fn status_head_chars(input: &StatusInput) -> (v: Vec<char>)
    requires
        input.line < usize::MAX,
        input.col < usize::MAX,
    ensures
        v@ == status_head(*input),
{
    let mut v: Vec<char> = Vec::new();
    push_str_chars(&mut v, "Ln ");
    assert(v@ =~= "Ln "@);
    push_decimal(&mut v, input.line + 1);
    push_str_chars(&mut v, ", Col ");
    push_decimal(&mut v, input.col + 1);
    push_str_chars(&mut v, "  |  ");
    push_decimal(&mut v, input.line_count);
    push_str_chars(&mut v, " lines");
    push_str_chars(&mut v, "  |  ");
    let ghost before_indent = v@;
    match input.indent_style {
        IndentStyle::Spaces(n) => {
            push_str_chars(&mut v, "Spaces: ");
            push_decimal(&mut v, n);
            assert(v@ =~= before_indent + indent_label(input.indent_style));
        },
        IndentStyle::Tabs => {
            push_str_chars(&mut v, "Tabs");
        },
    }
    push_str_chars(&mut v, "  |  ");
    if input.word_wrap {
        push_str_chars(&mut v, "Wrap");
    } else {
        push_str_chars(&mut v, "No wrap");
    }
    push_str_chars(&mut v, "  |  ");
    if input.modified {
        push_str_chars(&mut v, "Modified");
    } else {
        push_str_chars(&mut v, "Saved");
    }
    v
}

fn diagnostics_chars(n: usize) -> (v: Vec<char>)
    ensures
        v@ == diagnostics_label(n),
{
    let mut v: Vec<char> = Vec::new();
    if n > 0 {
        push_str_chars(&mut v, "  |  ");
        assert(v@ =~= sep());
        push_decimal(&mut v, n);
        if n == 1 {
            push_str_chars(&mut v, " diagnostic");
        } else {
            push_str_chars(&mut v, " diagnostics");
        }
    }
    v
}

fn status_tail_chars(input: &StatusInput) -> (v: Vec<char>)
    ensures
        v@ == status_tail(*input),
{
    let mut v = diagnostics_chars(input.diagnostic_count);
    let ghost before_lsp = v@;
    let lsp = crate::text::chars_of(input.lsp_status);
    if lsp.len() > 0 {
        push_str_chars(&mut v, "  |  ");
        push_str_chars(&mut v, input.lsp_status);
        assert(v@ =~= before_lsp + optional_part(input.lsp_status@));
    } else {
        assert(v@ =~= before_lsp + optional_part(input.lsp_status@));
    }
    let ghost before_vim = v@;
    match input.vim_mode {
        Some(VimMode::Normal) => push_str_chars(&mut v, "  |  VIM NORMAL"),
        Some(VimMode::Insert) => push_str_chars(&mut v, "  |  VIM INSERT"),
        Some(VimMode::Visual) => push_str_chars(&mut v, "  |  VIM VISUAL"),
        None => {
            assert(v@ =~= before_vim + vim_label(input.vim_mode));
        },
    }
    let ghost before_preset = v@;
    match input.keybinding_preset {
        KeybindingPreset::Emacs => push_str_chars(&mut v, "  |  Emacs"),
        _ => {
            assert(v@ =~= before_preset + preset_label(input.keybinding_preset));
        },
    }
    let ghost before_large = v@;
    match input.large_file_label {
        Some(l) => {
            push_str_chars(&mut v, "  |  ");
            push_str_chars(&mut v, l);
            assert(v@ =~= before_large + (sep() + l@));
        },
        None => {
            assert(v@ =~= before_large + Seq::<char>::empty());
        },
    }
    v
}

/// The text of the editor's status line.
pub fn editor_status_text(input: &StatusInput) -> (r: String)
    requires
        input.line < usize::MAX,
        input.col < usize::MAX,
    ensures
        r@ == status_spec(*input),
{
    let mut v = status_head_chars(input);
    let tail = status_tail_chars(input);
    extend_chars(&mut v, tail.as_slice());
    string_of(v.as_slice())
}

} // verus!
