//! Commenting and uncommenting lines of code.
use vstd::prelude::*;

use crate::editor::{selection_spec, BufferView};
use crate::paths::{path_extension, spec_path_extension};
use crate::text::{
    ascii_lower_seq, ascii_lowercase, chars_eq, chars_of, lead, lead_exec, lemma_lead_bounds,
    lemma_lead_unique, slice_chars, starts_with, starts_with_exec, string_of, trim, trim_chars,
    CharClass,
};

verus! {

// ---------------------------------------------------------------------------
// Comment styles
// ---------------------------------------------------------------------------

/// How a language writes comments.
#[derive(Clone, Copy, Debug)]
pub struct CommentStyle {
    pub line: Option<&'static str>,
    pub block: Option<(&'static str, &'static str)>,
}

/// The comment families that the editor knows.
#[derive(Clone, Copy, Debug, PartialEq, Eq, Structural)]
pub enum CommentKind {
    /// `//` and `/* */`.
    Slash,
    /// `#` only.
    Hash,
    /// `--` only.
    Dash,
    /// `<!-- -->` only.
    Html,
    /// `/* */` only.
    Css,
}

pub open spec fn kind_of_lang(l: Seq<char>) -> CommentKind {
    if l == seq!['p', 'y', 't', 'h', 'o', 'n'] || l == seq!['r', 'u', 'b', 'y'] || l == seq![
        'b',
        'a',
        's',
        'h',
    ] || l == seq!['t', 'o', 'm', 'l'] {
        CommentKind::Hash
    } else if l == seq!['s', 'q', 'l'] || l == seq!['l', 'u', 'a'] {
        CommentKind::Dash
    } else if l == seq!['h', 't', 'm', 'l'] {
        CommentKind::Html
    } else if l == seq!['c', 's', 's'] {
        CommentKind::Css
    } else {
        CommentKind::Slash
    }
}

/// The comment family of a file extension (already lowercased); unknown
/// extensions get the default `//` style.
pub open spec fn kind_of_ext(e: Seq<char>) -> CommentKind {
    if e == seq!['p', 'y'] || e == seq!['p', 'y', 'i'] || e == seq!['r', 'b'] || e == seq![
        's',
        'h',
    ] || e == seq!['b', 'a', 's', 'h'] || e == seq!['z', 's', 'h'] || e == seq![
        't',
        'o',
        'm',
        'l',
    ] {
        CommentKind::Hash
    } else if e == seq!['s', 'q', 'l'] || e == seq!['l', 'u', 'a'] {
        CommentKind::Dash
    } else if e == seq!['h', 't', 'm', 'l'] || e == seq!['h', 't', 'm'] {
        CommentKind::Html
    } else if e == seq!['c', 's', 's'] || e == seq!['s', 'c', 's', 's'] {
        CommentKind::Css
    } else {
        CommentKind::Slash
    }
}

/// The language id wins; else the path's extension decides.
pub open spec fn comment_kind(lang_id: Option<Seq<char>>, path: Option<Seq<char>>) -> CommentKind {
    match lang_id {
        Some(l) => kind_of_lang(l),
        None => match path {
            Some(p) => match spec_path_extension(p) {
                Some(e) => kind_of_ext(ascii_lower_seq(e)),
                None => CommentKind::Slash,
            },
            None => CommentKind::Slash,
        },
    }
}

pub open spec fn slash2() -> Seq<char> {
    seq!['/', '/']
}

pub open spec fn hash1() -> Seq<char> {
    seq!['#']
}

pub open spec fn dash2() -> Seq<char> {
    seq!['-', '-']
}

pub open spec fn c_open() -> Seq<char> {
    seq!['/', '*']
}

pub open spec fn c_close() -> Seq<char> {
    seq!['*', '/']
}

pub open spec fn html_open() -> Seq<char> {
    seq!['<', '!', '-', '-']
}

pub open spec fn html_close() -> Seq<char> {
    seq!['-', '-', '>']
}

/// Line prefix of a comment family.
pub open spec fn line_prefix_of(k: CommentKind) -> Option<Seq<char>> {
    match k {
        CommentKind::Slash => Some(slash2()),
        CommentKind::Hash => Some(hash1()),
        CommentKind::Dash => Some(dash2()),
        CommentKind::Html => None,
        CommentKind::Css => None,
    }
}

/// Block delimiters of a comment family.
pub open spec fn block_of(k: CommentKind) -> Option<(Seq<char>, Seq<char>)> {
    match k {
        CommentKind::Slash => Some((c_open(), c_close())),
        CommentKind::Hash => None,
        CommentKind::Dash => None,
        CommentKind::Html => Some((html_open(), html_close())),
        CommentKind::Css => Some((c_open(), c_close())),
    }
}

pub open spec fn style_line(s: CommentStyle) -> Option<Seq<char>> {
    match s.line {
        Some(p) => Some(p@),
        None => None,
    }
}

pub open spec fn style_block(s: CommentStyle) -> Option<(Seq<char>, Seq<char>)> {
    match s.block {
        Some((o, c)) => Some((o@, c@)),
        None => None,
    }
}

fn chars_is(v: &[char], lit: &[char]) -> (b: bool)
    ensures
        b == (v@ == lit@),
{
    chars_eq(v, lit)
}

fn kind_of_lang_exec(l: &[char]) -> (k: CommentKind)
    ensures
        k == kind_of_lang(l@),
{
    let python = ['p', 'y', 't', 'h', 'o', 'n'];
    let ruby = ['r', 'u', 'b', 'y'];
    let bash = ['b', 'a', 's', 'h'];
    let toml = ['t', 'o', 'm', 'l'];
    let sql = ['s', 'q', 'l'];
    let lua = ['l', 'u', 'a'];
    let html = ['h', 't', 'm', 'l'];
    let css = ['c', 's', 's'];
    assert(python@ == seq!['p', 'y', 't', 'h', 'o', 'n']);
    assert(ruby@ == seq!['r', 'u', 'b', 'y']);
    assert(bash@ == seq!['b', 'a', 's', 'h']);
    assert(toml@ == seq!['t', 'o', 'm', 'l']);
    assert(sql@ == seq!['s', 'q', 'l']);
    assert(lua@ == seq!['l', 'u', 'a']);
    assert(html@ == seq!['h', 't', 'm', 'l']);
    assert(css@ == seq!['c', 's', 's']);
    if chars_is(l, python.as_slice()) || chars_is(l, ruby.as_slice()) || chars_is(
        l,
        bash.as_slice(),
    ) || chars_is(l, toml.as_slice()) {
        CommentKind::Hash
    } else if chars_is(l, sql.as_slice()) || chars_is(l, lua.as_slice()) {
        CommentKind::Dash
    } else if chars_is(l, html.as_slice()) {
        CommentKind::Html
    } else if chars_is(l, css.as_slice()) {
        CommentKind::Css
    } else {
        CommentKind::Slash
    }
}

fn kind_of_ext_exec(e: &[char]) -> (k: CommentKind)
    ensures
        k == kind_of_ext(e@),
{
    let py = ['p', 'y'];
    let pyi = ['p', 'y', 'i'];
    let rb = ['r', 'b'];
    let sh = ['s', 'h'];
    let bash = ['b', 'a', 's', 'h'];
    let zsh = ['z', 's', 'h'];
    let toml = ['t', 'o', 'm', 'l'];
    let sql = ['s', 'q', 'l'];
    let lua = ['l', 'u', 'a'];
    let html = ['h', 't', 'm', 'l'];
    let htm = ['h', 't', 'm'];
    let css = ['c', 's', 's'];
    let scss = ['s', 'c', 's', 's'];
    assert(py@ == seq!['p', 'y']);
    assert(pyi@ == seq!['p', 'y', 'i']);
    assert(rb@ == seq!['r', 'b']);
    assert(sh@ == seq!['s', 'h']);
    assert(bash@ == seq!['b', 'a', 's', 'h']);
    assert(zsh@ == seq!['z', 's', 'h']);
    assert(toml@ == seq!['t', 'o', 'm', 'l']);
    assert(sql@ == seq!['s', 'q', 'l']);
    assert(lua@ == seq!['l', 'u', 'a']);
    assert(html@ == seq!['h', 't', 'm', 'l']);
    assert(htm@ == seq!['h', 't', 'm']);
    assert(css@ == seq!['c', 's', 's']);
    assert(scss@ == seq!['s', 'c', 's', 's']);
    if chars_is(e, py.as_slice()) || chars_is(e, pyi.as_slice()) || chars_is(e, rb.as_slice())
        || chars_is(e, sh.as_slice()) || chars_is(e, bash.as_slice()) || chars_is(
        e,
        zsh.as_slice(),
    ) || chars_is(e, toml.as_slice()) {
        CommentKind::Hash
    } else if chars_is(e, sql.as_slice()) || chars_is(e, lua.as_slice()) {
        CommentKind::Dash
    } else if chars_is(e, html.as_slice()) || chars_is(e, htm.as_slice()) {
        CommentKind::Html
    } else if chars_is(e, css.as_slice()) || chars_is(e, scss.as_slice()) {
        CommentKind::Css
    } else {
        CommentKind::Slash
    }
}

/// The comment style for a buffer: by its language id if the syntax engine
/// knows one, else by its file extension (case-insensitively), else `//`.
pub fn comment_style(lang_id: Option<&str>, path: Option<&str>) -> (style: CommentStyle)
    ensures
        ({
            let k = comment_kind(
                match lang_id {
                    Some(l) => Some(l@),
                    None => None,
                },
                match path {
                    Some(p) => Some(p@),
                    None => None,
                },
            );
            &&& style_line(style) == line_prefix_of(k)
            &&& style_block(style) == block_of(k)
        }),
{
    let kind = match lang_id {
        Some(l) => {
            let lc = chars_of(l);
            kind_of_lang_exec(lc.as_slice())
        },
        None => match path {
            Some(p) => match path_extension(p) {
                Some(e) => {
                    let ec = chars_of(e.as_str());
                    let lower = ascii_lowercase(ec.as_slice());
                    kind_of_ext_exec(lower.as_slice())
                },
                None => CommentKind::Slash,
            },
            None => CommentKind::Slash,
        },
    };
    proof {
        reveal_strlit("//");
        reveal_strlit("#");
        reveal_strlit("--");
        reveal_strlit("/*");
        reveal_strlit("*/");
        reveal_strlit("<!--");
        reveal_strlit("-->");
    }
    match kind {
        CommentKind::Slash => CommentStyle { line: Some("//"), block: Some(("/*", "*/")) },
        CommentKind::Hash => CommentStyle { line: Some("#"), block: None },
        CommentKind::Dash => CommentStyle { line: Some("--"), block: None },
        CommentKind::Html => CommentStyle { line: None, block: Some(("<!--", "-->")) },
        CommentKind::Css => CommentStyle { line: None, block: Some(("/*", "*/")) },
    }
}

// ---------------------------------------------------------------------------
// Line comments
// ---------------------------------------------------------------------------

pub open spec fn line_views(v: Seq<String>) -> Seq<Seq<char>> {
    v.map_values(|s: String| s@)
}

/// Leading spaces and tabs.
pub open spec fn indent_len(l: Seq<char>) -> nat {
    lead(l, CharClass::Indent)
}

pub open spec fn is_blank(l: Seq<char>) -> bool {
    trim(l).len() == 0
}

/// The line, past its indentation, starts with the comment prefix.
pub open spec fn is_commented(l: Seq<char>, p: Seq<char>) -> bool {
    starts_with(l.skip(indent_len(l) as int), p)
}

pub open spec fn all_commented(block: Seq<Seq<char>>, p: Seq<char>) -> bool {
    forall|i: int| 0 <= i < block.len() && !is_blank(#[trigger] block[i]) ==> is_commented(block[i], p)
}

pub open spec fn any_content(block: Seq<Seq<char>>) -> bool {
    exists|i: int| 0 <= i < block.len() && !is_blank(#[trigger] block[i])
}

/// A line after toggling: blank lines stay; otherwise the prefix (and one
/// space after it) is removed when `uncomment`, else `prefix ` is inserted
/// after the indentation.
pub open spec fn toggled_line(l: Seq<char>, p: Seq<char>, uncomment: bool) -> Seq<char> {
    if is_blank(l) {
        l
    } else {
        let ind = l.take(indent_len(l) as int);
        let after = l.skip(indent_len(l) as int);
        if uncomment {
            let ap = if p.len() <= after.len() {
                after.skip(p.len() as int)
            } else {
                Seq::empty()
            };
            ind + (if ap.len() > 0 && ap[0] == ' ' {
                ap.drop_first()
            } else {
                ap
            })
        } else {
            ind + p + seq![' '] + after
        }
    }
}

/// The lines after toggling the comments of lines `start..=end`.
pub open spec fn toggled_lines(lines: Seq<Seq<char>>, start: int, end: int, p: Seq<char>) -> Seq<
    Seq<char>,
> {
    let uncomment = all_commented(lines.subrange(start, end + 1), p);
    Seq::new(
        lines.len(),
        |i: int|
            if start <= i <= end {
                toggled_line(lines[i], p, uncomment)
            } else {
                lines[i]
            },
    )
}

/// What toggling line comments does: `None` when nothing changes.
pub open spec fn toggle_comments_spec(
    lines: Seq<Seq<char>>,
    start: int,
    end_line: int,
    p: Seq<char>,
) -> Option<Seq<Seq<char>>> {
    if p.len() == 0 || lines.len() == 0 {
        None
    } else {
        let end = if end_line < lines.len() - 1 {
            end_line
        } else {
            lines.len() - 1
        };
        if start > end || !any_content(lines.subrange(start, end + 1)) {
            None
        } else {
            let new_lines = toggled_lines(lines, start, end, p);
            if new_lines == lines {
                None
            } else {
                Some(new_lines)
            }
        }
    }
}

/// The indentation of a line: its leading spaces and tabs.
pub fn line_indent(line: &str) -> (r: String)
    ensures
        r@ == line@.take(indent_len(line@) as int),
{
    let v = chars_of(line);
    let n = lead_exec(v.as_slice(), CharClass::Indent);
    let ind = slice_chars(v.as_slice(), 0, n);
    assert(ind@ == v@.take(n as int));
    string_of(ind.as_slice())
}

fn is_blank_exec(l: &[char]) -> (b: bool)
    ensures
        b == is_blank(l@),
{
    trim_chars(l).len() == 0
}

fn is_commented_exec(l: &[char], p: &[char]) -> (b: bool)
    ensures
        b == is_commented(l@, p@),
{
    let n = lead_exec(l, CharClass::Indent);
    let after = slice_chars(l, n, l.len());
    assert(after@ == l@.skip(n as int));
    starts_with_exec(after.as_slice(), p)
}

fn toggled_line_exec(l: &[char], p: &[char], uncomment: bool) -> (r: Vec<char>)
    ensures
        r@ == toggled_line(l@, p@, uncomment),
{
    if is_blank_exec(l) {
        return slice_chars(l, 0, l.len());
    }
    let n = lead_exec(l, CharClass::Indent);
    let mut out = slice_chars(l, 0, n);
    assert(out@ == l@.take(n as int));
    let after = slice_chars(l, n, l.len());
    assert(after@ == l@.skip(n as int));
    if uncomment {
        let cut = if p.len() <= after.len() {
            p.len()
        } else {
            after.len()
        };
        let ap = slice_chars(after.as_slice(), cut, after.len());
        assert(ap@ == (if p@.len() <= after@.len() {
            after@.skip(p@.len() as int)
        } else {
            Seq::<char>::empty()
        }));
        if ap.len() > 0 && ap[0] == ' ' {
            let rest = slice_chars(ap.as_slice(), 1, ap.len());
            assert(rest@ == ap@.drop_first());
            crate::text::extend_chars(&mut out, rest.as_slice());
        } else {
            crate::text::extend_chars(&mut out, ap.as_slice());
        }
    } else {
        crate::text::extend_chars(&mut out, p);
        out.push(' ');
        crate::text::extend_chars(&mut out, after.as_slice());
    }
    out
}

/// Comments lines `start_line..=end_line` with `prefix`, or uncomments them
/// when every non-blank one is already commented. Returns whether the text
/// changed; the lines are left as they are when it did not.
pub fn toggle_line_comments_as_command(
    lines: &mut Vec<String>,
    start_line: usize,
    end_line: usize,
    prefix: &str,
) -> (changed: bool)
    ensures
        match toggle_comments_spec(
            line_views(old(lines)@),
            start_line as int,
            end_line as int,
            prefix@,
        ) {
            Some(new_lines) => changed && line_views(final(lines)@) == new_lines,
            None => !changed && final(lines)@ == old(lines)@,
        },
{
    let p = chars_of(prefix);
    if p.len() == 0 || lines.len() == 0 {
        return false;
    }
    let end = if end_line < lines.len() - 1 {
        end_line
    } else {
        lines.len() - 1
    };
    if start_line > end {
        return false;
    }
    let ghost old_lines = line_views(lines@);
    let ghost block = old_lines.subrange(start_line as int, end + 1);
    let mut any = false;
    let mut all = true;
    let mut k: usize = start_line;
    while k <= end
        invariant
            start_line <= k <= end + 1,
            end < lines.len(),
            old_lines == line_views(lines@),
            block == old_lines.subrange(start_line as int, end + 1),
            any == exists|i: int| 0 <= i < k - start_line && !is_blank(#[trigger] block[i]),
            all == forall|i: int|
                0 <= i < k - start_line && !is_blank(#[trigger] block[i]) ==> is_commented(
                    block[i],
                    p@,
                ),
        decreases end + 1 - k,
    {
        let lc = chars_of(lines[k].as_str());
        assert(block[k - start_line] == lc@);
        let blank = is_blank_exec(lc.as_slice());
        if !blank {
            any = true;
            if !is_commented_exec(lc.as_slice(), p.as_slice()) {
                all = false;
            }
        }
        k += 1;
    }
    if !any {
        return false;
    }
    let ghost new_lines = toggled_lines(old_lines, start_line as int, end as int, p@);
    let mut replacements: Vec<String> = Vec::new();
    let mut same = true;
    let mut k: usize = start_line;
    while k <= end
        invariant
            start_line <= k <= end + 1,
            end < lines.len(),
            old_lines == line_views(lines@),
            block == old_lines.subrange(start_line as int, end + 1),
            all == all_commented(block, p@),
            new_lines == toggled_lines(old_lines, start_line as int, end as int, p@),
            replacements@.len() == k - start_line,
            forall|i: int|
                0 <= i < k - start_line ==> (#[trigger] replacements@[i])@ == new_lines[start_line + i],
            same == forall|i: int|
                start_line <= i < k ==> #[trigger] new_lines[i] == old_lines[i],
        decreases end + 1 - k,
    {
        let lc = chars_of(lines[k].as_str());
        assert(old_lines[k as int] == lc@);
        let t = toggled_line_exec(lc.as_slice(), p.as_slice(), all);
        assert(t@ == new_lines[k as int]);
        if !crate::text::chars_eq(t.as_slice(), lc.as_slice()) {
            same = false;
        }
        replacements.push(string_of(t.as_slice()));
        k += 1;
    }
    if same {
        proof {
            assert(new_lines =~= old_lines);
        }
        return false;
    }
    let mut k: usize = start_line;
    while k <= end
        invariant
            start_line <= k <= end + 1,
            end < lines.len(),
            lines@.len() == old(lines)@.len(),
            replacements@.len() == end + 1 - start_line,
            forall|i: int|
                0 <= i < end + 1 - start_line ==> (#[trigger] replacements@[i])@ == new_lines[start_line + i],
            forall|i: int|
                0 <= i < lines@.len() ==> (#[trigger] lines@[i])@ == (if start_line <= i < k {
                    new_lines[i]
                } else {
                    old_lines[i]
                }),
            new_lines.len() == old_lines.len(),
            old_lines.len() == lines@.len(),
        decreases end + 1 - k,
    {
        let r = replacements[k - start_line].clone();
        lines.set(k, r);
        k += 1;
    }
    proof {
        assert(line_views(lines@) =~= new_lines);
        assert(new_lines != old_lines);
    }
    true
}

/// The lines `selected_line_range` picks: those of the selection (a
/// selection ending at column 0 of a later line leaves that line out), else
/// the cursor's line; clamped to the last line.
pub open spec fn selected_line_range_spec(view: BufferView, line_count: int) -> (int, int) {
    let last = if line_count > 0 {
        line_count - 1
    } else {
        0
    };
    match selection_spec(view.cursor) {
        Some((start, end)) => {
            let end_line = if end.col == 0 && end.line > start.line {
                end.line - 1
            } else {
                end.line as int
            };
            (
                if start.line < last {
                    start.line as int
                } else {
                    last
                },
                if end_line < last {
                    end_line
                } else {
                    last
                },
            )
        },
        None => {
            let line = if view.cursor.pos.line < last {
                view.cursor.pos.line as int
            } else {
                last
            };
            (line, line)
        },
    }
}

/// The first and last line that a line command acts on.
pub fn selected_line_range(view: &BufferView, line_count: usize) -> (r: (usize, usize))
    ensures
        (r.0 as int, r.1 as int) == selected_line_range_spec(*view, line_count as int),
{
    let last = if line_count > 0 {
        line_count - 1
    } else {
        0
    };
    match view.cursor.selection() {
        Some((start, end)) => {
            let mut end_line: usize = end.line;
            if end.col == 0 && end.line > start.line {
                end_line -= 1;
            }
            (
                if start.line < last {
                    start.line
                } else {
                    last
                },
                if end_line < last {
                    end_line
                } else {
                    last
                },
            )
        },
        None => {
            let line = if view.cursor.pos.line < last {
                view.cursor.pos.line
            } else {
                last
            };
            (line, line)
        },
    }
}

pub open spec fn save_failed_prefix() -> Seq<char> {
    seq!['S', 'a', 'v', 'e', ' ', 'f', 'a', 'i', 'l', 'e', 'd', ':', ' ']
}

/// The status line shown when saving fails.
pub fn save_failed_status(error: &str) -> (r: String)
    ensures
        r@ == save_failed_prefix() + error@,
{
    let prefix = ['S', 'a', 'v', 'e', ' ', 'f', 'a', 'i', 'l', 'e', 'd', ':', ' '];
    let mut v: Vec<char> = Vec::new();
    crate::text::extend_chars(&mut v, prefix.as_slice());
    let e = chars_of(error);
    crate::text::extend_chars(&mut v, e.as_slice());
    assert(prefix@ == save_failed_prefix());
    string_of(v.as_slice())
}

// ---------------------------------------------------------------------------
// Laws
// ---------------------------------------------------------------------------

/// A line with a non-whitespace character is not blank.
proof fn lemma_not_blank(s: Seq<char>, j: int)
    requires
        0 <= j < s.len(),
        !crate::text::is_ws(s[j]),
    ensures
        !is_blank(s),
{
    crate::text::lemma_ws_prefix_bounds(s);
    let k = crate::text::ws_prefix_len(s) as int;
    assert(k <= j);
    let t = crate::text::trim_start(s);
    assert(t[0] == s[k]);
    crate::text::lemma_ws_suffix_bounds(t);
    if crate::text::ws_suffix_len(t) == t.len() {
        assert(crate::text::is_ws(t[0]));
    }
}

/// A line that is not blank has a non-whitespace character where its leading
/// whitespace ends.
proof fn lemma_blank_witness(l: Seq<char>)
    requires
        !is_blank(l),
    ensures
        crate::text::ws_prefix_len(l) < l.len(),
        !crate::text::is_ws(l[crate::text::ws_prefix_len(l) as int]),
{
    crate::text::lemma_ws_prefix_bounds(l);
    if crate::text::ws_prefix_len(l) == l.len() {
        assert(crate::text::trim_start(l).len() == 0);
    }
}

/// Commenting a content line and uncommenting it gives the line back, and
/// the commented line is a commented content line.
proof fn lemma_comment_line_roundtrip(l: Seq<char>, p: Seq<char>)
    requires
        p.len() > 0,
        p[0] != ' ',
        p[0] != '\t',
        !is_blank(l),
    ensures
        !is_blank(toggled_line(l, p, false)),
        is_commented(toggled_line(l, p, false), p),
        toggled_line(toggled_line(l, p, false), p, true) == l,
{
    let n = indent_len(l) as int;
    lemma_lead_bounds(l, CharClass::Indent);
    let ind = l.take(n);
    let after = l.skip(n);
    let t = ind + p + seq![' '] + after;
    assert(t == toggled_line(l, p, false));
    assert(t[n] == p[0]);
    lemma_blank_witness(l);
    let j = crate::text::ws_prefix_len(l) as int;
    if j < n {
        assert(crate::text::in_class(l[j], CharClass::Indent));
    }
    assert(t[n + p.len() + 1 + (j - n)] == l[j]);
    lemma_not_blank(t, n + p.len() + 1 + (j - n));
    assert forall|j: int| 0 <= j < n implies crate::text::in_class(#[trigger] t[j], CharClass::Indent) by {
        assert(t[j] == l[j]);
    }
    lemma_lead_unique(t, CharClass::Indent, n);
    assert(t.skip(n) =~= p + seq![' '] + after);
    assert(t.skip(n).take(p.len() as int) =~= p);
    let ap = t.skip(n).skip(p.len() as int);
    assert(ap =~= seq![' '] + after);
    assert(ap.drop_first() =~= after);
    assert(t.take(n) =~= ind);
    assert(ind + after =~= l);
}

/// Uncommenting a content line `indent + prefix + rest` (the indentation
/// made of spaces and tabs, the prefix not starting with either) removes the
/// prefix and at most one space after it, and nothing else: the line becomes
/// `indent + rest`, or `indent` and `rest` without its first character when
/// that character is a space.
pub proof fn law_uncomment_removes_only_prefix(indent: Seq<char>, p: Seq<char>, rest: Seq<char>)
    requires
        forall|j: int| 0 <= j < indent.len() ==> (#[trigger] indent[j] == ' ' || indent[j] == '\t'),
        p.len() > 0,
        p[0] != ' ',
        p[0] != '\t',
        !is_blank(indent + p + rest),
    ensures
        rest.len() == 0 || rest[0] != ' ' ==> toggled_line(indent + p + rest, p, true) == indent
            + rest,
        rest.len() > 0 && rest[0] == ' ' ==> toggled_line(indent + p + rest, p, true) == indent
            + rest.skip(1),
        toggled_line(indent + p + rest, p, true).len() >= indent.len() + rest.len() - 1,
{
    let l = indent + p + rest;
    let n = indent.len() as int;
    assert forall|j: int| 0 <= j < n implies crate::text::in_class(#[trigger] l[j], CharClass::Indent) by {
        assert(l[j] == indent[j]);
    }
    assert(l[n] == p[0]);
    lemma_lead_unique(l, CharClass::Indent, n);
    assert(l.take(n) =~= indent);
    assert(l.skip(n) =~= p + rest);
    assert((p + rest).skip(p.len() as int) =~= rest);
    if rest.len() > 0 && rest[0] == ' ' {
        assert(rest.drop_first() =~= rest.skip(1));
    }
}

/// Toggling line comments on lines that are not all commented, then toggling
/// again, gives the same lines back (for a prefix that does not start with
/// a space or a tab, as no comment prefix does).
pub proof fn law_toggle_line_comments_twice(
    lines: Seq<Seq<char>>,
    start_line: usize,
    end_line: usize,
    p: Seq<char>,
)
    requires
        p.len() > 0,
        p[0] != ' ',
        p[0] != '\t',
        toggle_comments_spec(lines, start_line as int, end_line as int, p) is Some,
        !all_commented(
            lines.subrange(
                start_line as int,
                (if end_line < lines.len() - 1 {
                    end_line as int
                } else {
                    lines.len() - 1
                }) + 1,
            ),
            p,
        ),
    ensures
        toggle_comments_spec(toggle_comments_spec(lines, start_line as int, end_line as int, p).unwrap(), start_line as int, end_line as int, p)
            == Some(lines),
{
    let start = start_line as int;
    let end_i = end_line as int;
    let end = if end_i < lines.len() - 1 {
        end_i
    } else {
        lines.len() - 1
    };
    let block = lines.subrange(start, end + 1);
    let l2 = toggled_lines(lines, start, end, p);
    assert(toggle_comments_spec(lines, start, end_i, p) == Some(l2));
    let block2 = l2.subrange(start, end + 1);
    assert forall|i: int| 0 <= i < block2.len() && !is_blank(#[trigger] block2[i]) implies is_commented(
        block2[i],
        p,
    ) by {
        assert(block2[i] == toggled_line(lines[start + i], p, false));
        if !is_blank(lines[start + i]) {
            lemma_comment_line_roundtrip(lines[start + i], p);
        }
    }
    assert(all_commented(block2, p));
    let w = choose|i: int| 0 <= i < block.len() && !is_blank(#[trigger] block[i]);
    assert(block[w] == lines[start + w]);
    lemma_comment_line_roundtrip(lines[start + w], p);
    assert(block2[w] == toggled_line(lines[start + w], p, false));
    assert(any_content(block2));
    let l3 = toggled_lines(l2, start, end, p);
    assert forall|i: int| 0 <= i < lines.len() implies #[trigger] l3[i] == lines[i] by {
        if start <= i <= end {
            if !is_blank(lines[i]) {
                lemma_comment_line_roundtrip(lines[i], p);
            }
        }
    }
    assert(l3 =~= lines);
}

} // verus!
