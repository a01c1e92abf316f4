//! How deep a line is indented, for the indentation guides.
use vstd::prelude::*;

use crate::text::chars_of;

verus! {

/// How a buffer indents: with a number of spaces, or with tabs.
#[derive(Clone, Copy, Debug, PartialEq, Eq, Structural)]
pub enum IndentStyle {
    Spaces(usize),
    Tabs,
}

pub open spec fn style_width(style: IndentStyle) -> nat {
    match style {
        IndentStyle::Spaces(n) => n as nat,
        IndentStyle::Tabs => 1,
    }
}

impl IndentStyle {
    /// Columns per indentation level.
    pub fn width(self) -> (w: usize)
        ensures
            w == style_width(self),
    {
        match self {
            IndentStyle::Spaces(n) => n,
            IndentStyle::Tabs => 1,
        }
    }
}

/// The width used for one level: the style's width, at least one.
pub open spec fn level_width(style: IndentStyle) -> nat {
    if style_width(style) == 0 {
        1
    } else {
        style_width(style)
    }
}

/// Columns taken by the leading spaces and tabs of `s`: one per space,
/// `w` per tab.
pub open spec fn indent_columns(s: Seq<char>, w: nat) -> nat
    decreases s.len(),
{
    if s.len() > 0 && s[0] == ' ' {
        1 + indent_columns(s.drop_first(), w)
    } else if s.len() > 0 && s[0] == '\t' {
        w + indent_columns(s.drop_first(), w)
    } else {
        0
    }
}

/// Columns taken by the leading spaces and tabs of `line`.
pub fn indentation_columns(line: &str, style: IndentStyle) -> (columns: usize)
    requires
        indent_columns(line@, level_width(style)) <= usize::MAX,
    ensures
        columns == indent_columns(line@, level_width(style)),
{
    let w = style.width();
    let width = if w == 0 {
        1
    } else {
        w
    };
    let v = chars_of(line);
    let ghost s = v@;
    let ghost total = indent_columns(s, width as nat);
    let mut columns: usize = 0;
    let mut i: usize = 0;
    assert(s.skip(0) =~= s);
    while i < v.len() && (v[i] == ' ' || v[i] == '\t')
        invariant
            i <= v.len(),
            s == v@,
            total == indent_columns(s, width as nat),
            total <= usize::MAX,
            columns + indent_columns(s.skip(i as int), width as nat) == total,
        decreases v.len() - i,
    {
        let ch = v[i];
        assert(s.skip(i as int)[0] == ch);
        assert(s.skip(i as int).drop_first() =~= s.skip(i + 1));
        if ch == ' ' {
            columns = columns + 1;
        } else {
            columns = columns + width;
        }
        i += 1;
    }
    if i < v.len() {
        assert(s.skip(i as int)[0] == s[i as int]);
    }
    columns
}

/// The indentation level of `line`: its indentation columns over the
/// style's width.
pub fn indent_level(line: &str, style: IndentStyle) -> (level: usize)
    requires
        indent_columns(line@, level_width(style)) <= usize::MAX,
    ensures
        level == indent_columns(line@, level_width(style)) / level_width(style),
{
    let w = style.width();
    let width = if w == 0 {
        1
    } else {
        w
    };
    indentation_columns(line, style) / width
}

/// A line that starts with neither a space nor a tab has indentation level zero.
pub proof fn law_unindented_line_level_zero(s: Seq<char>, style: IndentStyle)
    requires
        s.len() == 0 || (s[0] != ' ' && s[0] != '\t'),
    ensures
        indent_columns(s, level_width(style)) / level_width(style) == 0,
{
}

} // verus!
