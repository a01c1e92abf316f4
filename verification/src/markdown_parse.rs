//! The block structure of a Markdown document, as the preview draws it.
use vstd::prelude::*;

use crate::markdown_inline::{
    is_table_separator_line, looks_like_table_row, looks_like_table_row_spec, split_table_row,
    table_cells, table_separator_spec, views,
};
use crate::text::{
    chars_of, find, find_seq_from, is_ws, lead, lead_exec, slice_chars,
    starts_with, starts_with_exec, string_of, strip_trail, strip_trail_exec, trim, trim_chars,
    trim_end, trim_end_chars, trim_start, trim_start_chars, ws_prefix, ws_prefix_len, CharClass,
};

verus! {

// ---------------------------------------------------------------------------
// Single lines
// ---------------------------------------------------------------------------

pub open spec fn backticks3() -> Seq<char> {
    seq!['`', '`', '`']
}

pub open spec fn tildes3() -> Seq<char> {
    seq!['~', '~', '~']
}

/// The language named after a fence: its first whitespace-separated word.
pub open spec fn fence_language_spec(info: Seq<char>) -> Option<Seq<char>> {
    let s = trim_start(info);
    if s.len() == 0 {
        None
    } else {
        Some(s.take(lead(s, CharClass::NonWs) as int))
    }
}

/// A code fence opener: its marker and the language after it.
pub open spec fn code_fence_spec(line: Seq<char>) -> Option<(Seq<char>, Option<Seq<char>>)> {
    if starts_with(line, backticks3()) {
        Some((backticks3(), fence_language_spec(line.skip(3))))
    } else if starts_with(line, tildes3()) {
        Some((tildes3(), fence_language_spec(line.skip(3))))
    } else {
        None
    }
}

/// The language of a code fence, if one is named.
pub fn code_fence_language(info: &[char]) -> (r: Option<Vec<char>>)
    ensures
        match r {
            Some(l) => fence_language_spec(info@) == Some(l@),
            None => fence_language_spec(info@) is None,
        },
{
    let s = trim_start_chars(info);
    if s.len() == 0 {
        return None;
    }
    let n = lead_exec(s.as_slice(), CharClass::NonWs);
    let word = slice_chars(s.as_slice(), 0, n);
    assert(word@ == s@.take(n as int));
    Some(word)
}

/// Recognizes a code fence opener (three backticks or three tildes).
pub fn code_fence(line: &[char]) -> (r: Option<(Vec<char>, Option<Vec<char>>)>)
    ensures
        match r {
            Some((m, l)) => code_fence_spec(line@) == Some(
                (
                    m@,
                    match l {
                        Some(x) => Some(x@),
                        None => None,
                    },
                ),
            ),
            None => code_fence_spec(line@) is None,
        },
{
    let ticks = ['`', '`', '`'];
    let tildes = ['~', '~', '~'];
    assert(ticks@ == backticks3());
    assert(tildes@ == tildes3());
    let marker = if starts_with_exec(line, ticks.as_slice()) {
        slice_chars(ticks.as_slice(), 0, 3)
    } else if starts_with_exec(line, tildes.as_slice()) {
        slice_chars(tildes.as_slice(), 0, 3)
    } else {
        return None;
    };
    assert(ticks@.subrange(0, 3) == ticks@);
    assert(tildes@.subrange(0, 3) == tildes@);
    let info = slice_chars(line, 3, line.len());
    assert(info@ == line@.skip(3));
    let language = code_fence_language(info.as_slice());
    Some((marker, language))
}

/// An ATX heading: one to six `#`, then whitespace, then text (closing `#`s
/// and trailing whitespace dropped).
pub open spec fn heading_spec(line: Seq<char>) -> Option<(nat, Seq<char>)> {
    let h = lead(line, CharClass::Is('#'));
    if h < 1 || h > 6 {
        None
    } else {
        let rest = line.skip(h as int);
        let text = trim_start(rest);
        if text.len() == 0 || ws_prefix_len(rest) == 0 {
            None
        } else {
            Some((h, trim_end(strip_trail(text, CharClass::Is('#')))))
        }
    }
}

/// Recognizes an ATX heading, giving its level and text.
pub fn heading(line: &[char]) -> (r: Option<(usize, Vec<char>)>)
    ensures
        match r {
            Some((level, text)) => heading_spec(line@) == Some((level as nat, text@)),
            None => heading_spec(line@) is None,
        },
{
    let hashes = lead_exec(line, CharClass::Is('#'));
    if hashes < 1 || hashes > 6 {
        return None;
    }
    let rest = slice_chars(line, hashes, line.len());
    assert(rest@ == line@.skip(hashes as int));
    let leading = ws_prefix(rest.as_slice());
    let text = trim_start_chars(rest.as_slice());
    if text.len() == 0 || leading == 0 {
        return None;
    }
    let no_hashes = strip_trail_exec(text.as_slice(), CharClass::Is('#'));
    let out = trim_end_chars(no_hashes.as_slice());
    Some((hashes, out))
}

/// `s` without its whitespace characters.
pub open spec fn ws_removed(s: Seq<char>) -> Seq<char>
    decreases s.len(),
{
    if s.len() == 0 {
        Seq::empty()
    } else if is_ws(s.last()) {
        ws_removed(s.drop_last())
    } else {
        ws_removed(s.drop_last()).push(s.last())
    }
}

pub open spec fn all_same(s: Seq<char>, c: char) -> bool {
    forall|i: int| 0 <= i < s.len() ==> #[trigger] s[i] == c
}

/// Three or more `-`, `*` or `_` (all the same), whitespace allowed between.
pub open spec fn horizontal_rule_spec(line: Seq<char>) -> bool {
    let c = ws_removed(line);
    c.len() >= 3 && (all_same(c, '-') || all_same(c, '*') || all_same(c, '_'))
}

fn all_same_exec(v: &[char], c: char) -> (b: bool)
    ensures
        b == all_same(v@, c),
{
    let mut i: usize = 0;
    while i < v.len()
        invariant
            i <= v.len(),
            forall|j: int| 0 <= j < i ==> v@[j] == c,
        decreases v.len() - i,
    {
        if v[i] != c {
            assert(v@[i as int] != c);
            return false;
        }
        i += 1;
    }
    true
}

/// Whether a line is a thematic break.
pub fn is_horizontal_rule(line: &[char]) -> (b: bool)
    ensures
        b == horizontal_rule_spec(line@),
{
    let mut compact: Vec<char> = Vec::new();
    let mut i: usize = 0;
    while i < line.len()
        invariant
            i <= line.len(),
            compact@ == ws_removed(line@.take(i as int)),
        decreases line.len() - i,
    {
        let c = line[i];
        assert(line@.take(i + 1).drop_last() == line@.take(i as int));
        if !crate::text::is_whitespace(c) {
            compact.push(c);
        }
        i += 1;
    }
    assert(line@.take(line.len() as int) == line@);
    compact.len() >= 3 && (all_same_exec(compact.as_slice(), '-') || all_same_exec(
        compact.as_slice(),
        '*',
    ) || all_same_exec(compact.as_slice(), '_'))
}

/// Columns of leading indentation: a tab counts four, a space one.
pub open spec fn indent_width(s: Seq<char>) -> nat
    decreases s.len(),
{
    if s.len() > 0 && (s[0] == ' ' || s[0] == '\t') {
        (if s[0] == '\t' {
            4nat
        } else {
            1nat
        }) + indent_width(s.drop_first())
    } else {
        0
    }
}

pub open spec fn all_digits(s: Seq<char>) -> bool {
    forall|i: int| 0 <= i < s.len() ==> '0' <= #[trigger] s[i] && s[i] <= '9'
}

pub open spec fn bullet() -> Seq<char> {
    seq!['•']
}

/// A list item: its marker (`•` for bullets, `N.` for ordered items), its
/// text and its nesting level (two columns of indentation per level).
pub open spec fn list_item_spec(line: Seq<char>) -> Option<(Seq<char>, Seq<char>, nat)> {
    let level = indent_width(line) / 2;
    let rest = trim_start(line);
    if starts_with(rest, seq!['-', ' ']) || starts_with(rest, seq!['*', ' ']) || starts_with(
        rest,
        seq!['+', ' '],
    ) {
        Some((bullet(), rest.skip(2), level))
    } else {
        match find(rest, seq!['.', ' ']) {
            None => None,
            Some(d) => if d == 0 || d > 3 || !all_digits(rest.take(d)) {
                None
            } else {
                Some((rest.take(d + 1), trim_start(rest.skip(d + 2)), level))
            },
        }
    }
}

proof fn lemma_indent_width_bound(s: Seq<char>)
    ensures
        indent_width(s) <= 4 * s.len(),
    decreases s.len(),
{
    if s.len() > 0 && (s[0] == ' ' || s[0] == '\t') {
        lemma_indent_width_bound(s.drop_first());
    }
}

proof fn lemma_indent_width_step(s: Seq<char>, i: int)
    requires
        0 <= i < s.len(),
        forall|j: int| 0 <= j <= i ==> (#[trigger] s[j] == ' ' || s[j] == '\t'),
    ensures
        indent_width(s) == indent_width(s.take(i)) + (if s[i] == '\t' {
            4nat
        } else {
            1nat
        }) + indent_width(s.skip(i + 1)),
    decreases i,
{
    if i > 0 {
        let t = s.drop_first();
        assert forall|j: int| 0 <= j <= i - 1 implies (#[trigger] t[j] == ' ' || t[j] == '\t') by {
            assert(t[j] == s[j + 1]);
        }
        lemma_indent_width_step(t, i - 1);
        assert(t.take(i - 1) == s.take(i).drop_first());
        assert(t.skip(i) == s.skip(i + 1));
        assert(s.take(i)[0] == s[0]);
    } else {
        assert(s.skip(1) == s.drop_first());
        assert(s.take(0).len() == 0);
    }
}

/// Recognizes a bullet or ordered list item.
#[verifier::loop_isolation(false)]
pub fn list_item(line: &[char]) -> (r: Option<(Vec<char>, Vec<char>, usize)>)
    requires
        line@.len() <= usize::MAX / 4,
    ensures
        match r {
            Some((m, t, level)) => list_item_spec(line@) == Some((m@, t@, level as nat)),
            None => list_item_spec(line@) is None,
        },
{
    let mut width: usize = 0;
    let mut i: usize = 0;
    assert(line@.skip(0) == line@);
    while i < line.len() && (line[i] == ' ' || line[i] == '\t')
        invariant
            i <= line.len(),
            line@.len() <= usize::MAX / 4,
            forall|j: int| 0 <= j < i ==> (#[trigger] line@[j] == ' ' || line@[j] == '\t'),
            indent_width(line@) == width + indent_width(line@.skip(i as int)),
            width <= 4 * i,
        decreases line.len() - i,
    {
        proof {
            lemma_indent_width_step(line@, i as int);
            lemma_indent_width_step(line@.skip(i as int), 0);
            assert(line@.skip(i as int).skip(1) == line@.skip(i + 1));
        }
        if line[i] == '\t' {
            width = width + 4;
        } else {
            width = width + 1;
        }
        i += 1;
    }
    proof {
        assert(indent_width(line@.skip(i as int)) == 0);
    }
    let level = width / 2;
    let rest = trim_start_chars(line);
    let dash = ['-', ' '];
    let star = ['*', ' '];
    let plus = ['+', ' '];
    assert(dash@ == seq!['-', ' ']);
    assert(star@ == seq!['*', ' ']);
    assert(plus@ == seq!['+', ' ']);
    if starts_with_exec(rest.as_slice(), dash.as_slice()) || starts_with_exec(
        rest.as_slice(),
        star.as_slice(),
    ) || starts_with_exec(rest.as_slice(), plus.as_slice()) {
        let text = slice_chars(rest.as_slice(), 2, rest.len());
        let marker = vec!['•'];
        assert(marker@ == bullet());
        return Some((marker, text, level));
    }
    let dot_pat = ['.', ' '];
    assert(dot_pat@ == seq!['.', ' ']);
    let dot = match find_seq_from(rest.as_slice(), dot_pat.as_slice(), 0) {
        Some(d) => d,
        None => {
            assert(rest@.skip(0) == rest@);
            return None;
        },
    };
    assert(rest@.skip(0) == rest@);
    if dot == 0 || dot > 3 {
        return None;
    }
    let mut k: usize = 0;
    while k < dot
        invariant
            k <= dot < rest.len(),
            forall|j: int| 0 <= j < k ==> '0' <= #[trigger] rest@[j] && rest@[j] <= '9',
        decreases dot - k,
    {
        if !('0' <= rest[k] && rest[k] <= '9') {
            assert(rest@.take(dot as int)[k as int] == rest@[k as int]);
            assert(!all_digits(rest@.take(dot as int)));
            return None;
        }
        k += 1;
    }
    assert(all_digits(rest@.take(dot as int)));
    let marker = slice_chars(rest.as_slice(), 0, dot + 1);
    let after = slice_chars(rest.as_slice(), dot + 2, rest.len());
    let text = trim_start_chars(after.as_slice());
    Some((marker, text, level))
}

/// Text with its surrounding whitespace dropped; a target in angle brackets
/// is taken whole, otherwise only its first word (a title after it is
/// dropped).
pub open spec fn image_target_spec(target: Seq<char>) -> Seq<char> {
    let t = trim(target);
    if t.len() >= 2 && t[0] == '<' && t.last() == '>' {
        trim(t.drop_first().drop_last())
    } else {
        t.take(lead(t, CharClass::NonWs) as int)
    }
}

/// `![alt](target)` on its own line.
pub open spec fn image_spec(line: Seq<char>) -> Option<(Seq<char>, Seq<char>)> {
    if !starts_with(line, seq!['!', '[']) {
        None
    } else {
        let rest = line.skip(2);
        match find(rest, seq![']', '(']) {
            None => None,
            Some(a) => {
                let after = rest.skip(a + 2);
                match find(after, seq![')']) {
                    None => None,
                    Some(e) => {
                        let target = image_target_spec(after.take(e));
                        if target.len() == 0 {
                            None
                        } else {
                            Some((rest.take(a), target))
                        }
                    },
                }
            },
        }
    }
}

pub fn normalize_image_target(target: &[char]) -> (r: Vec<char>)
    ensures
        r@ == image_target_spec(target@),
{
    let t = trim_chars(target);
    if t.len() >= 2 && t[0] == '<' && t[t.len() - 1] == '>' {
        let inner = slice_chars(t.as_slice(), 1, t.len() - 1);
        assert(inner@ == t@.drop_first().drop_last());
        return trim_chars(inner.as_slice());
    }
    let n = lead_exec(t.as_slice(), CharClass::NonWs);
    let word = slice_chars(t.as_slice(), 0, n);
    assert(word@ == t@.take(n as int));
    word
}

/// Recognizes an image line, giving its alt text and target.
pub fn image_chars(line: &[char]) -> (r: Option<(Vec<char>, Vec<char>)>)
    ensures
        match r {
            Some((alt, target)) => image_spec(line@) == Some((alt@, target@)),
            None => image_spec(line@) is None,
        },
{
    let bang = ['!', '['];
    assert(bang@ == seq!['!', '[']);
    if !starts_with_exec(line, bang.as_slice()) {
        return None;
    }
    let mid = [']', '('];
    assert(mid@ == seq![']', '(']);
    let a = match find_seq_from(line, mid.as_slice(), 2) {
        Some(j) => j,
        None => {
            return None;
        },
    };
    let close = [')'];
    assert(close@ == seq![')']);
    assert(line@.skip(2).skip(a - 2 + 2) == line@.skip(a + 2));
    let e = match find_seq_from(line, close.as_slice(), a + 2) {
        Some(j) => j,
        None => {
            return None;
        },
    };
    let raw_target = slice_chars(line, a + 2, e);
    assert(raw_target@ == line@.skip(a + 2).take(e - (a + 2)));
    let target = normalize_image_target(raw_target.as_slice());
    if target.len() == 0 {
        return None;
    }
    let alt = slice_chars(line, 2, a);
    assert(alt@ == line@.skip(2).take(a - 2));
    Some((alt, target))
}

/// Recognizes an image line, giving its alt text and target.
pub fn image(line: &str) -> (r: Option<(String, String)>)
    ensures
        match r {
            Some((alt, target)) => image_spec(line@) == Some((alt@, target@)),
            None => image_spec(line@) is None,
        },
{
    let v = chars_of(line);
    match image_chars(v.as_slice()) {
        Some((alt, target)) => Some((string_of(alt.as_slice()), string_of(target.as_slice()))),
        None => None,
    }
}

// ---------------------------------------------------------------------------
// Lines of a document
// ---------------------------------------------------------------------------

pub open spec fn strip_cr(l: Seq<char>) -> Seq<char> {
    if l.len() > 0 && l.last() == '\r' {
        l.drop_last()
    } else {
        l
    }
}

/// `str::lines`: split at `\n` (a `\r` before it is dropped); a final line
/// break ends the last line rather than starting an empty one.
pub open spec fn split_lines(s: Seq<char>) -> Seq<Seq<char>>
    decreases s.len(),
{
    if s.len() == 0 {
        Seq::empty()
    } else {
        match find(s, seq!['\n']) {
            Some(i) => if 0 <= i < s.len() {
                seq![strip_cr(s.take(i))] + split_lines(s.skip(i + 1))
            } else {
                seq![s]
            },
            None => seq![s],
        }
    }
}

fn strip_cr_exec(v: Vec<char>) -> (r: Vec<char>)
    ensures
        r@ == strip_cr(v@),
{
    if v.len() > 0 && v[v.len() - 1] == '\r' {
        slice_chars(v.as_slice(), 0, v.len() - 1)
    } else {
        v
    }
}

/// The lines of `v`, as `str::lines` gives them.
pub fn lines_of(v: &[char]) -> (lines: Vec<Vec<char>>)
    ensures
        views(lines@) == split_lines(v@),
        forall|i: int| 0 <= i < lines@.len() ==> (#[trigger] lines@[i])@.len() <= v@.len(),
{
    let mut lines: Vec<Vec<char>> = Vec::new();
    let mut start: usize = 0;
    assert(v@.skip(0) == v@);
    while start < v.len()
        invariant
            start <= v.len(),
            views(lines@) + split_lines(v@.skip(start as int)) == split_lines(v@),
            forall|i: int| 0 <= i < lines@.len() ==> (#[trigger] lines@[i])@.len() <= v@.len(),
        decreases v.len() - start,
    {
        let ghost s = v@.skip(start as int);
        let ghost before = lines@;
        match crate::text::find_char_from(v, '\n', start) {
            Some(j) => {
                let piece = slice_chars(v, start, j);
                let line = strip_cr_exec(piece);
                lines.push(line);
                proof {
                    assert(piece@ == s.take(j - start));
                    assert(s.skip(j - start + 1) == v@.skip(j + 1));
                    assert(split_lines(s) == seq![line@] + split_lines(v@.skip(j + 1)));
                    assert(views(lines@) =~= views(before).push(line@));
                    assert(views(lines@) + split_lines(v@.skip(j + 1)) =~= views(before)
                        + split_lines(s));
                }
                start = j + 1;
            },
            None => {
                let piece = slice_chars(v, start, v.len());
                lines.push(piece);
                proof {
                    assert(piece@ == s);
                    assert(split_lines(s) == seq![s]);
                    assert(views(lines@) =~= views(before).push(piece@));
                    assert(v@.skip(v.len() as int) =~= Seq::<char>::empty());
                    assert(views(lines@) + split_lines(v@.skip(v.len() as int)) =~= views(before)
                        + split_lines(s));
                }
                start = v.len();
            },
        }
    }
    proof {
        assert(v@.skip(start as int) =~= Seq::<char>::empty());
        assert(views(lines@) + Seq::<Seq<char>>::empty() =~= views(lines@));
    }
    lines
}

// ---------------------------------------------------------------------------
// Blocks
// ---------------------------------------------------------------------------

/// A block of the preview.
#[derive(Debug, PartialEq, Eq)]
pub enum MarkdownBlock {
    Paragraph(String),
    Heading { level: usize, text: String },
    CodeBlock { language: Option<String>, code: String },
    Blockquote(String),
    ListItem { marker: String, text: String, indent_level: usize },
    Table { headers: Vec<String>, rows: Vec<Vec<String>> },
    Image { alt: String, target: String },
    HorizontalRule,
    Blank,
}

/// The mathematical value of a `MarkdownBlock`: texts as character sequences.
pub enum BlockSpec {
    Paragraph(Seq<char>),
    Heading { level: nat, text: Seq<char> },
    CodeBlock { language: Option<Seq<char>>, code: Seq<char> },
    Blockquote(Seq<char>),
    ListItem { marker: Seq<char>, text: Seq<char>, indent_level: nat },
    Table { headers: Seq<Seq<char>>, rows: Seq<Seq<Seq<char>>> },
    Image { alt: Seq<char>, target: Seq<char> },
    HorizontalRule,
    Blank,
}

pub open spec fn string_views(v: Seq<String>) -> Seq<Seq<char>> {
    v.map_values(|s: String| s@)
}

impl View for MarkdownBlock {
    type V = BlockSpec;

    open spec fn view(&self) -> BlockSpec {
        match self {
            MarkdownBlock::Paragraph(s) => BlockSpec::Paragraph(s@),
            MarkdownBlock::Heading { level, text } => BlockSpec::Heading {
                level: *level as nat,
                text: text@,
            },
            MarkdownBlock::CodeBlock { language, code } => BlockSpec::CodeBlock {
                language: match language {
                    Some(l) => Some(l@),
                    None => None,
                },
                code: code@,
            },
            MarkdownBlock::Blockquote(s) => BlockSpec::Blockquote(s@),
            MarkdownBlock::ListItem { marker, text, indent_level } => BlockSpec::ListItem {
                marker: marker@,
                text: text@,
                indent_level: *indent_level as nat,
            },
            MarkdownBlock::Table { headers, rows } => BlockSpec::Table {
                headers: string_views(headers@),
                rows: rows@.map_values(|r: Vec<String>| string_views(r@)),
            },
            MarkdownBlock::Image { alt, target } => BlockSpec::Image { alt: alt@, target: target@ },
            MarkdownBlock::HorizontalRule => BlockSpec::HorizontalRule,
            MarkdownBlock::Blank => BlockSpec::Blank,
        }
    }
}

pub open spec fn block_views(v: Seq<MarkdownBlock>) -> Seq<BlockSpec> {
    v.map_values(|b: MarkdownBlock| b@)
}

/// Lines joined with single spaces.
pub open spec fn join_space(parts: Seq<Seq<char>>) -> Seq<char>
    decreases parts.len(),
{
    if parts.len() == 0 {
        Seq::empty()
    } else if parts.len() == 1 {
        parts[0]
    } else {
        join_space(parts.drop_last()) + seq![' '] + parts.last()
    }
}

/// The paragraph gathered so far, if any.
pub open spec fn flush_spec(para: Seq<Seq<char>>) -> Seq<BlockSpec> {
    if para.len() == 0 {
        Seq::empty()
    } else {
        seq![BlockSpec::Paragraph(join_space(para))]
    }
}

pub open spec fn dashes3() -> Seq<char> {
    seq!['-', '-', '-']
}

/// Index just past the line that closes front matter (or the end).
pub open spec fn frontmatter_end(lines: Seq<Seq<char>>, pos: int) -> int
    decreases lines.len() - pos,
{
    if pos < 0 || pos >= lines.len() {
        lines.len() as int
    } else if trim(lines[pos]) == dashes3() {
        pos + 1
    } else {
        frontmatter_end(lines, pos + 1)
    }
}

/// Index of the line that closes a code fence (or the end).
pub open spec fn fence_close(lines: Seq<Seq<char>>, pos: int, marker: Seq<char>) -> int
    decreases lines.len() - pos,
{
    if pos < 0 || pos >= lines.len() {
        lines.len() as int
    } else if starts_with(trim_start(lines[pos]), marker) {
        pos
    } else {
        fence_close(lines, pos + 1, marker)
    }
}

/// Lines each followed by a line break.
pub open spec fn code_text(lines: Seq<Seq<char>>) -> Seq<char>
    decreases lines.len(),
{
    if lines.len() == 0 {
        Seq::empty()
    } else {
        code_text(lines.drop_last()) + lines.last() + seq!['\n']
    }
}

/// The text of code lines put one after another is the text of the first
/// lines followed by the text of the rest.
pub proof fn law_code_text_concat(a: Seq<Seq<char>>, b: Seq<Seq<char>>)
    ensures
        code_text(a + b) == code_text(a) + code_text(b),
    decreases b.len(),
{
    if b.len() == 0 {
        assert(a + b =~= a);
        assert(code_text(a) + code_text(b) =~= code_text(a));
    } else {
        law_code_text_concat(a, b.drop_last());
        assert((a + b).drop_last() =~= a + b.drop_last());
        assert((a + b).last() == b.last());
        assert(code_text(a + b) =~= code_text(a) + code_text(b));
    }
}

/// The text of a single code line is the line followed by a line break, so
/// with `law_code_text_concat` the text of body lines L1..Ln is
/// L1, a line break, L2, ..., Ln, a line break: no line break between lines
/// is lost and no other character is added.
pub proof fn law_code_text_line(l: Seq<char>)
    ensures
        code_text(seq![l]) == l.push('\n'),
        code_text(seq![l]).len() == l.len() + 1,
        code_text(seq![l])[l.len() as int] == '\n',
        code_text(seq![l]).take(l.len() as int) == l,
{
    assert(seq![l].drop_last() =~= Seq::<Seq<char>>::empty());
    assert(seq![l].last() == l);
    assert(code_text(Seq::<Seq<char>>::empty()) =~= Seq::<char>::empty());
    assert(code_text(seq![l]) == code_text(seq![l].drop_last()) + seq![l].last() + seq!['\n']);
    assert(code_text(seq![l]) =~= l.push('\n'));
}

/// Between two consecutive body lines the code text has a line break: the
/// text of lines `a` then `b` holds the text of `a`, then the first line of
/// `b`, then a line break.
pub proof fn law_code_text_keeps_breaks(a: Seq<Seq<char>>, b: Seq<Seq<char>>)
    requires
        b.len() > 0,
    ensures
        code_text(a + b).take((code_text(a).len() + b[0].len() + 1) as int) == code_text(a) + b[0].push(
            '\n',
        ),
{
    law_code_text_concat(a, b);
    law_code_text_concat(seq![b[0]], b.drop_first());
    assert(seq![b[0]] + b.drop_first() =~= b);
    law_code_text_line(b[0]);
    assert(code_text(a + b).take((code_text(a).len() + b[0].len() + 1) as int) =~= code_text(a) + b[0].push(
        '\n',
    ));
}

/// Index of the first line from `pos` on that is not a table row (or the end).
pub open spec fn rows_end(lines: Seq<Seq<char>>, pos: int) -> int
    decreases lines.len() - pos,
{
    if pos < 0 || pos >= lines.len() {
        lines.len() as int
    } else if !looks_like_table_row_spec(trim(lines[pos])) {
        pos
    } else {
        rows_end(lines, pos + 1)
    }
}

pub open spec fn table_rows(lines: Seq<Seq<char>>) -> Seq<Seq<Seq<char>>> {
    lines.map_values(|l: Seq<char>| table_cells(trim(l)))
}

/// The blocks of the lines from `pos` on, with `para` the paragraph lines
/// gathered so far and `at_start` telling whether front matter may open.
#[verifier::opaque]
pub open spec fn parse_from(
    lines: Seq<Seq<char>>,
    pos: int,
    at_start: bool,
    para: Seq<Seq<char>>,
) -> Seq<BlockSpec>
    decreases lines.len() - pos,
{
    if pos < 0 || pos >= lines.len() {
        flush_spec(para)
    } else {
        let line = lines[pos];
        let t = trim(line);
        if at_start && t == dashes3() {
            let next = frontmatter_end(lines, pos + 1);
            if next <= pos || next > lines.len() {
                Seq::empty()
            } else {
                parse_from(lines, next, false, para)
            }
        } else if t.len() == 0 {
            flush_spec(para) + seq![BlockSpec::Blank] + parse_from(
                lines,
                pos + 1,
                false,
                Seq::empty(),
            )
        } else if code_fence_spec(t) is Some {
            let marker = code_fence_spec(t).unwrap().0;
            let language = code_fence_spec(t).unwrap().1;
            let close = fence_close(lines, pos + 1, marker);
            let after = if close < lines.len() {
                close + 1
            } else {
                lines.len() as int
            };
            if close <= pos || close > lines.len() {
                Seq::empty()
            } else {
                let code = strip_trail(
                    code_text(lines.subrange(pos + 1, close)),
                    CharClass::Is('\n'),
                );
                flush_spec(para) + seq![BlockSpec::CodeBlock { language, code }] + parse_from(
                    lines,
                    after,
                    false,
                    Seq::empty(),
                )
            }
        } else if heading_spec(t) is Some {
            let (level, text) = heading_spec(t).unwrap();
            flush_spec(para) + seq![BlockSpec::Heading { level, text }] + parse_from(
                lines,
                pos + 1,
                false,
                Seq::empty(),
            )
        } else if horizontal_rule_spec(t) {
            flush_spec(para) + seq![BlockSpec::HorizontalRule] + parse_from(
                lines,
                pos + 1,
                false,
                Seq::empty(),
            )
        } else if starts_with(t, seq!['>', ' ']) {
            flush_spec(para) + seq![BlockSpec::Blockquote(t.skip(2))] + parse_from(
                lines,
                pos + 1,
                false,
                Seq::empty(),
            )
        } else if list_item_spec(line) is Some {
            let (marker, text, indent_level) = list_item_spec(line).unwrap();
            flush_spec(para) + seq![BlockSpec::ListItem { marker, text, indent_level }]
                + parse_from(lines, pos + 1, false, Seq::empty())
        } else if image_spec(t) is Some {
            let (alt, target) = image_spec(t).unwrap();
            flush_spec(para) + seq![BlockSpec::Image { alt, target }] + parse_from(
                lines,
                pos + 1,
                false,
                Seq::empty(),
            )
        } else if table_separator_spec(
            if pos + 1 < lines.len() {
                Some(lines[pos + 1])
            } else {
                None
            },
        ) && looks_like_table_row_spec(t) {
            let end = rows_end(lines, pos + 2);
            if end <= pos + 1 || end > lines.len() {
                Seq::empty()
            } else {
                flush_spec(para) + seq![
                    BlockSpec::Table {
                        headers: table_cells(t),
                        rows: table_rows(lines.subrange(pos + 2, end)),
                    },
                ] + parse_from(lines, end, false, Seq::empty())
            }
        } else {
            parse_from(lines, pos + 1, false, para.push(t))
        }
    }
}

/// The blocks of a Markdown document.
pub open spec fn parse_markdown_spec(source: Seq<char>) -> Seq<BlockSpec> {
    parse_from(split_lines(source), 0, true, Seq::empty())
}

// ---------------------------------------------------------------------------
// Parsing
// ---------------------------------------------------------------------------

proof fn lemma_frontmatter_end_bounds(lines: Seq<Seq<char>>, pos: int)
    requires
        0 <= pos <= lines.len(),
    ensures
        pos <= frontmatter_end(lines, pos) <= lines.len(),
    decreases lines.len() - pos,
{
    if pos < lines.len() && trim(lines[pos]) != dashes3() {
        lemma_frontmatter_end_bounds(lines, pos + 1);
    }
}

proof fn lemma_fence_close_bounds(lines: Seq<Seq<char>>, pos: int, marker: Seq<char>)
    requires
        0 <= pos <= lines.len(),
    ensures
        pos <= fence_close(lines, pos, marker) <= lines.len(),
    decreases lines.len() - pos,
{
    if pos < lines.len() && !starts_with(trim_start(lines[pos]), marker) {
        lemma_fence_close_bounds(lines, pos + 1, marker);
    }
}

proof fn lemma_rows_end_bounds(lines: Seq<Seq<char>>, pos: int)
    requires
        0 <= pos <= lines.len(),
    ensures
        pos <= rows_end(lines, pos) <= lines.len(),
    decreases lines.len() - pos,
{
    if pos < lines.len() && looks_like_table_row_spec(trim(lines[pos])) {
        lemma_rows_end_bounds(lines, pos + 1);
    }
}

/// Index just past the end of front matter that opened before `pos`.
fn skip_frontmatter(lines: &Vec<Vec<char>>, pos: usize) -> (r: usize)
    requires
        pos <= lines.len(),
    ensures
        r as int == frontmatter_end(views(lines@), pos as int),
{
    let dashes = ['-', '-', '-'];
    assert(dashes@ == dashes3());
    let mut k: usize = pos;
    while k < lines.len()
        invariant
            pos <= k <= lines.len(),
            dashes@ == dashes3(),
            frontmatter_end(views(lines@), pos as int) == frontmatter_end(views(lines@), k as int),
        decreases lines.len() - k,
    {
        let t = trim_chars(lines[k].as_slice());
        assert(views(lines@)[k as int] == lines@[k as int]@);
        if crate::text::chars_eq(t.as_slice(), dashes.as_slice()) {
            return k + 1;
        }
        k += 1;
    }
    k
}

/// Index of the line that closes a fence opened before `pos`.
fn fence_close_exec(lines: &Vec<Vec<char>>, pos: usize, marker: &[char]) -> (r: usize)
    requires
        pos <= lines.len(),
    ensures
        r as int == fence_close(views(lines@), pos as int, marker@),
{
    let mut k: usize = pos;
    while k < lines.len()
        invariant
            pos <= k <= lines.len(),
            fence_close(views(lines@), pos as int, marker@) == fence_close(
                views(lines@),
                k as int,
                marker@,
            ),
        decreases lines.len() - k,
    {
        let t = trim_start_chars(lines[k].as_slice());
        assert(views(lines@)[k as int] == lines@[k as int]@);
        if starts_with_exec(t.as_slice(), marker) {
            return k;
        }
        k += 1;
    }
    k
}

/// Index of the first line from `pos` on that is not a table row.
fn rows_end_exec(lines: &Vec<Vec<char>>, pos: usize) -> (r: usize)
    requires
        pos <= lines.len(),
    ensures
        r as int == rows_end(views(lines@), pos as int),
{
    let mut k: usize = pos;
    while k < lines.len()
        invariant
            pos <= k <= lines.len(),
            rows_end(views(lines@), pos as int) == rows_end(views(lines@), k as int),
        decreases lines.len() - k,
    {
        let t = trim_chars(lines[k].as_slice());
        assert(views(lines@)[k as int] == lines@[k as int]@);
        if !looks_like_table_row(t.as_slice()) {
            return k;
        }
        k += 1;
    }
    k
}

/// The code between a fence and its closing line.
fn code_between(lines: &Vec<Vec<char>>, from: usize, to: usize) -> (code: Vec<char>)
    requires
        from <= to <= lines.len(),
    ensures
        code@ == strip_trail(
            code_text(views(lines@).subrange(from as int, to as int)),
            CharClass::Is('\n'),
        ),
{
    let mut code: Vec<char> = Vec::new();
    let mut k: usize = from;
    while k < to
        invariant
            from <= k <= to <= lines.len(),
            code@ == code_text(views(lines@).subrange(from as int, k as int)),
        decreases to - k,
    {
        crate::text::extend_chars(&mut code, lines[k].as_slice());
        code.push('\n');
        proof {
            let sub = views(lines@).subrange(from as int, k + 1);
            assert(sub.drop_last() == views(lines@).subrange(from as int, k as int));
            assert(sub.last() == lines@[k as int]@);
        }
        k += 1;
    }
    strip_trail_exec(code.as_slice(), CharClass::Is('\n'))
}

fn strings_of(cells: &Vec<Vec<char>>) -> (r: Vec<String>)
    ensures
        string_views(r@) == views(cells@),
{
    let mut r: Vec<String> = Vec::new();
    let mut i: usize = 0;
    while i < cells.len()
        invariant
            i <= cells.len(),
            string_views(r@) == views(cells@).take(i as int),
        decreases cells.len() - i,
    {
        let s = string_of(cells[i].as_slice());
        let ghost before = r@;
        r.push(s);
        assert(string_views(r@) =~= string_views(before).push(s@));
        assert(views(cells@).take(i + 1) =~= views(cells@).take(i as int).push(cells@[i as int]@));
        i += 1;
    }
    assert(views(cells@).take(cells.len() as int) =~= views(cells@));
    r
}

/// Table rows from `lines[from..to]`.
fn table_rows_exec(lines: &Vec<Vec<char>>, from: usize, to: usize) -> (rows: Vec<Vec<String>>)
    requires
        from <= to <= lines.len(),
    ensures
        rows@.map_values(|r: Vec<String>| string_views(r@)) == table_rows(
            views(lines@).subrange(from as int, to as int),
        ),
{
    let mut rows: Vec<Vec<String>> = Vec::new();
    let mut k: usize = from;
    while k < to
        invariant
            from <= k <= to <= lines.len(),
            rows@.map_values(|r: Vec<String>| string_views(r@)) == table_rows(
                views(lines@).subrange(from as int, k as int),
            ),
        decreases to - k,
    {
        let t = trim_chars(lines[k].as_slice());
        let cells = split_table_row(t.as_slice());
        let row = strings_of(&cells);
        let ghost before = rows@;
        rows.push(row);
        proof {
            assert(rows@.map_values(|r: Vec<String>| string_views(r@)) =~= before.map_values(
                |r: Vec<String>| string_views(r@),
            ).push(string_views(row@)));
            let sub = views(lines@).subrange(from as int, k + 1);
            assert(sub =~= views(lines@).subrange(from as int, k as int).push(lines@[k as int]@));
            assert(table_rows(sub) =~= table_rows(
                views(lines@).subrange(from as int, k as int),
            ).push(table_cells(trim(lines@[k as int]@))));
        }
        k += 1;
    }
    rows
}

/// Lines joined with single spaces.
fn join_space_exec(parts: &Vec<Vec<char>>) -> (out: Vec<char>)
    ensures
        out@ == join_space(views(parts@)),
{
    if parts.len() == 0 {
        return Vec::new();
    }
    let mut out = slice_chars(parts[0].as_slice(), 0, parts[0].len());
    assert(parts[0]@.subrange(0, parts[0]@.len() as int) == parts[0]@);
    let mut i: usize = 1;
    assert(views(parts@).take(1).drop_last().len() == 0);
    while i < parts.len()
        invariant
            1 <= i <= parts.len(),
            out@ == join_space(views(parts@).take(i as int)),
        decreases parts.len() - i,
    {
        out.push(' ');
        crate::text::extend_chars(&mut out, parts[i].as_slice());
        proof {
            let t = views(parts@).take(i + 1);
            assert(t.drop_last() == views(parts@).take(i as int));
            assert(t.last() == parts@[i as int]@);
        }
        i += 1;
    }
    assert(views(parts@).take(parts.len() as int) == views(parts@));
    out
}

/// Emits the paragraph gathered so far, if any, and starts a new one.
fn flush_parsed_paragraph(blocks: &mut Vec<MarkdownBlock>, paragraph: &mut Vec<Vec<char>>)
    ensures
        block_views(final(blocks)@) == block_views(old(blocks)@) + flush_spec(
            views(old(paragraph)@),
        ),
        final(paragraph)@.len() == 0,
{
    if paragraph.len() == 0 {
        assert(block_views(blocks@) + flush_spec(views(paragraph@)) =~= block_views(blocks@));
        return;
    }
    let text = join_space_exec(paragraph);
    let ghost before = blocks@;
    blocks.push(MarkdownBlock::Paragraph(string_of(text.as_slice())));
    assert(block_views(blocks@) =~= block_views(before) + flush_spec(views(paragraph@)));
    paragraph.clear();
}

/// Emits a block after flushing the paragraph.
fn emit(blocks: &mut Vec<MarkdownBlock>, paragraph: &mut Vec<Vec<char>>, block: MarkdownBlock)
    ensures
        block_views(final(blocks)@) == block_views(old(blocks)@) + flush_spec(
            views(old(paragraph)@),
        ) + seq![block@],
        final(paragraph)@.len() == 0,
{
    flush_parsed_paragraph(blocks, paragraph);
    let ghost before = blocks@;
    blocks.push(block);
    assert(block_views(blocks@) =~= block_views(before).push(block@));
}

fn opt_string(v: Option<Vec<char>>) -> (r: Option<String>)
    ensures
        match v {
            Some(x) => r matches Some(s) && s@ == x@,
            None => r is None,
        },
{
    match v {
        Some(x) => Some(string_of(x.as_slice())),
        None => None,
    }
}

/// Splits a Markdown document into the blocks that the preview draws.
#[verifier::rlimit(50)]
pub fn parse_markdown_blocks(source: &str) -> (blocks: Vec<MarkdownBlock>)
    requires
        source@.len() <= usize::MAX / 4,
    ensures
        block_views(blocks@) == parse_markdown_spec(source@),
{
    let src = chars_of(source);
    let lines = lines_of(src.as_slice());
    let ghost all = views(lines@);
    let mut blocks: Vec<MarkdownBlock> = Vec::new();
    let mut paragraph: Vec<Vec<char>> = Vec::new();
    let mut pos: usize = 0;
    let mut at_start = true;
    let dashes = ['-', '-', '-'];
    let quote = ['>', ' '];
    assert(dashes@ == dashes3());
    assert(quote@ == seq!['>', ' ']);
    assert(views(paragraph@) =~= Seq::<Seq<char>>::empty());
    assert(block_views(blocks@) =~= Seq::<BlockSpec>::empty());
    assert(block_views(blocks@) + parse_from(all, 0, true, views(paragraph@)) =~= parse_from(
        all,
        0,
        true,
        Seq::empty(),
    ));
    while pos < lines.len()
        invariant
            all == views(lines@),
            all == split_lines(src@),
            src@ == source@,
            pos <= lines.len(),
            dashes@ == dashes3(),
            quote@ == seq!['>', ' '],
            forall|i: int| 0 <= i < lines@.len() ==> (#[trigger] lines@[i])@.len() <= src@.len(),
            src@.len() <= usize::MAX / 4,
            block_views(blocks@) + parse_from(all, pos as int, at_start, views(paragraph@))
                == parse_from(all, 0, true, Seq::empty()),
        decreases lines.len() - pos,
    {
        let ghost blocks0 = block_views(blocks@);
        let ghost para0 = views(paragraph@);
        let ghost p0 = pos as int;
        let ghost start0 = at_start;
        let line = &lines[pos];
        assert(all[p0] == line@);
        let t = trim_chars(line.as_slice());
        if at_start && crate::text::chars_eq(t.as_slice(), dashes.as_slice()) {
            let next = skip_frontmatter(&lines, pos + 1);
            proof {
                lemma_frontmatter_end_bounds(all, p0 + 1);
                assert(parse_from(all, p0, start0, para0) == parse_from(all, next as int, false, para0))
                    by {
                    reveal(parse_from);
                }
            }
            pos = next;
            at_start = false;
            continue;
        }
        at_start = false;
        if t.len() == 0 {
            emit(&mut blocks, &mut paragraph, MarkdownBlock::Blank);
            proof {
                assert(parse_from(all, p0, start0, para0) == flush_spec(para0) + seq![
                    BlockSpec::Blank,
                ] + parse_from(all, p0 + 1, false, Seq::empty())) by {
                    reveal(parse_from);
                }
                assert(views(paragraph@) =~= Seq::<Seq<char>>::empty());
            }
            pos = pos + 1;
            continue;
        }
        match code_fence(t.as_slice()) {
            Some((marker, language)) => {
                let close = fence_close_exec(&lines, pos + 1, marker.as_slice());
                proof {
                    lemma_fence_close_bounds(all, p0 + 1, marker@);
                }
                let code = code_between(&lines, pos + 1, close);
                let after = if close < lines.len() {
                    close + 1
                } else {
                    lines.len()
                };
                let lang = opt_string(language);
                let code_s = string_of(code.as_slice());
                let block = MarkdownBlock::CodeBlock { language: lang, code: code_s };
                emit(&mut blocks, &mut paragraph, block);
                proof {
                    assert(parse_from(all, p0, start0, para0) == flush_spec(para0) + seq![block@]
                        + parse_from(all, after as int, false, Seq::empty())) by {
                        reveal(parse_from);
                    }
                    assert(views(paragraph@) =~= Seq::<Seq<char>>::empty());
                }
                pos = after;
                continue;
            },
            None => {},
        }
        match heading(t.as_slice()) {
            Some((level, text)) => {
                let block = MarkdownBlock::Heading { level, text: string_of(text.as_slice()) };
                emit(&mut blocks, &mut paragraph, block);
                proof {
                    assert(parse_from(all, p0, start0, para0) == flush_spec(para0) + seq![block@]
                        + parse_from(all, p0 + 1, false, Seq::empty())) by {
                        reveal(parse_from);
                    }
                    assert(views(paragraph@) =~= Seq::<Seq<char>>::empty());
                }
                pos = pos + 1;
                continue;
            },
            None => {},
        }
        if is_horizontal_rule(t.as_slice()) {
            emit(&mut blocks, &mut paragraph, MarkdownBlock::HorizontalRule);
            proof {
                assert(parse_from(all, p0, start0, para0) == flush_spec(para0) + seq![
                    BlockSpec::HorizontalRule,
                ] + parse_from(all, p0 + 1, false, Seq::empty())) by {
                    reveal(parse_from);
                }
                assert(views(paragraph@) =~= Seq::<Seq<char>>::empty());
            }
            pos = pos + 1;
            continue;
        }
        if starts_with_exec(t.as_slice(), quote.as_slice()) {
            let rest = slice_chars(t.as_slice(), 2, t.len());
            let block = MarkdownBlock::Blockquote(string_of(rest.as_slice()));
            emit(&mut blocks, &mut paragraph, block);
            proof {
                assert(parse_from(all, p0, start0, para0) == flush_spec(para0) + seq![block@]
                    + parse_from(all, p0 + 1, false, Seq::empty())) by {
                    reveal(parse_from);
                }
                assert(views(paragraph@) =~= Seq::<Seq<char>>::empty());
            }
            pos = pos + 1;
            continue;
        }
        match list_item(line.as_slice()) {
            Some((marker, text, indent_level)) => {
                let block = MarkdownBlock::ListItem {
                    marker: string_of(marker.as_slice()),
                    text: string_of(text.as_slice()),
                    indent_level,
                };
                emit(&mut blocks, &mut paragraph, block);
                proof {
                    assert(parse_from(all, p0, start0, para0) == flush_spec(para0) + seq![block@]
                        + parse_from(all, p0 + 1, false, Seq::empty())) by {
                        reveal(parse_from);
                    }
                    assert(views(paragraph@) =~= Seq::<Seq<char>>::empty());
                }
                pos = pos + 1;
                continue;
            },
            None => {},
        }
        match image_chars(t.as_slice()) {
            Some((alt, target)) => {
                let block = MarkdownBlock::Image {
                    alt: string_of(alt.as_slice()),
                    target: string_of(target.as_slice()),
                };
                emit(&mut blocks, &mut paragraph, block);
                proof {
                    assert(parse_from(all, p0, start0, para0) == flush_spec(para0) + seq![block@]
                        + parse_from(all, p0 + 1, false, Seq::empty())) by {
                        reveal(parse_from);
                    }
                    assert(views(paragraph@) =~= Seq::<Seq<char>>::empty());
                }
                pos = pos + 1;
                continue;
            },
            None => {},
        }
        let next_line: Option<&[char]> = if pos + 1 < lines.len() {
            Some(lines[pos + 1].as_slice())
        } else {
            None
        };
        proof {
            if p0 + 1 < all.len() {
                assert(all[p0 + 1] == lines@[p0 + 1]@);
            }
        }
        if is_table_separator_line(next_line) && looks_like_table_row(t.as_slice()) {
            let header_cells = split_table_row(t.as_slice());
            let headers = strings_of(&header_cells);
            let end = rows_end_exec(&lines, pos + 2);
            proof {
                lemma_rows_end_bounds(all, p0 + 2);
            }
            let rows = table_rows_exec(&lines, pos + 2, end);
            let block = MarkdownBlock::Table { headers, rows };
            emit(&mut blocks, &mut paragraph, block);
            proof {
                assert(parse_from(all, p0, start0, para0) == flush_spec(para0) + seq![block@]
                    + parse_from(all, end as int, false, Seq::empty())) by {
                    reveal(parse_from);
                }
                assert(views(paragraph@) =~= Seq::<Seq<char>>::empty());
            }
            pos = end;
            continue;
        }
        let ghost tv = t@;
        paragraph.push(t);
        proof {
            assert(parse_from(all, p0, start0, para0) == parse_from(
                all,
                p0 + 1,
                false,
                para0.push(tv),
            )) by {
                reveal(parse_from);
            }
            assert(views(paragraph@) =~= para0.push(tv));
        }
        pos = pos + 1;
    }
    let ghost para_end = views(paragraph@);
    let ghost blocks_end = block_views(blocks@);
    flush_parsed_paragraph(&mut blocks, &mut paragraph);
    proof {
        assert(parse_from(all, pos as int, at_start, para_end) == flush_spec(para_end)) by {
            reveal(parse_from);
        }
    }
    blocks
}

} // verus!
