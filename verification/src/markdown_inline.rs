//! Inline Markdown: links and emphasis marks turned into readable text, and
//! table rows split into cells.
use vstd::prelude::*;

use crate::text::{
    chars_of, string_of, strip_lead_exec, strip_trail_exec,
    contains_seq, extend_chars, find, find_char_from, find_seq_from, slice_chars, strip_lead,
    strip_trail, trim, CharClass,
};

verus! {

/// `[label](target)` becomes `label (target)` (or `label` for an empty
/// target); text without a complete link is kept as it is.
#[verifier::opaque]
pub open spec fn links_replaced(s: Seq<char>) -> Seq<char>
    decreases s.len(),
{
    match find(s, seq!['[']) {
        None => s,
        Some(open) => if !(0 <= open < s.len()) {
            s
        } else {
            let after_open = s.skip(open + 1);
            match find(after_open, seq![']', '(']) {
                None => s,
                Some(close) => if !(0 <= close && close + 2 <= after_open.len()) {
                    s
                } else {
                    let after_close = after_open.skip(close + 2);
                    match find(after_close, seq![')']) {
                        None => s,
                        Some(te) => if !(0 <= te < after_close.len()) {
                            s
                        } else {
                            let label = after_open.take(close);
                            let target = after_close.take(te);
                            s.take(open) + label + (if target.len() > 0 {
                                seq![' ', '('] + target + seq![')']
                            } else {
                                Seq::empty()
                            }) + links_replaced(after_close.skip(te + 1))
                        },
                    }
                },
            }
        },
    }
}

pub open spec fn is_mark(c: char) -> bool {
    c == '`' || c == '*' || c == '_'
}

/// `s` without backticks, asterisks and underscores.
pub open spec fn marks_removed(s: Seq<char>) -> Seq<char>
    decreases s.len(),
{
    if s.len() == 0 {
        Seq::empty()
    } else if is_mark(s.last()) {
        marks_removed(s.drop_last())
    } else {
        marks_removed(s.drop_last()).push(s.last())
    }
}

/// Removing the emphasis and code marks keeps exactly the characters of `s`
/// that are not a backtick, an asterisk or an underscore, in their order.
pub proof fn law_marks_removed_keeps_the_rest(s: Seq<char>)
    ensures
        marks_removed(s) == s.filter(|c: char| c != '`' && c != '*' && c != '_'),
    decreases s.len(),
{
    reveal(Seq::filter);
    if s.len() > 0 {
        law_marks_removed_keeps_the_rest(s.drop_last());
    }
}

/// The text shown of inline Markdown has no backtick, asterisk or
/// underscore left.
pub proof fn law_display_text_has_no_marks(s: Seq<char>, i: int)
    requires
        0 <= i < inline_display_spec(s).len(),
    ensures
        inline_display_spec(s)[i] != '`',
        inline_display_spec(s)[i] != '*',
        inline_display_spec(s)[i] != '_',
{
    let t = links_replaced(s);
    law_marks_removed_keeps_the_rest(t);
    t.lemma_filter_pred(|c: char| c != '`' && c != '*' && c != '_', i);
}

/// The text a reader sees of inline Markdown.
pub open spec fn inline_display_spec(s: Seq<char>) -> Seq<char> {
    marks_removed(links_replaced(s))
}

/// `str::split(c)`: the pieces between occurrences of `c` (at least one).
pub open spec fn split_char(s: Seq<char>, c: char) -> Seq<Seq<char>>
    decreases s.len(),
{
    match find(s, seq![c]) {
        Some(i) => if 0 <= i < s.len() {
            seq![s.take(i)] + split_char(s.skip(i + 1), c)
        } else {
            seq![s]
        },
        None => seq![s],
    }
}

pub open spec fn views(v: Seq<Vec<char>>) -> Seq<Seq<char>> {
    v.map_values(|x: Vec<char>| x@)
}

/// Cells of a table row: outer pipes dropped, split on `|`, each cell trimmed
/// and shown as inline text.
pub open spec fn table_cells(line: Seq<char>) -> Seq<Seq<char>> {
    let inner = strip_trail(strip_lead(trim(line), CharClass::Is('|')), CharClass::Is('|'));
    split_char(inner, '|').map_values(|cell: Seq<char>| inline_display_spec(trim(cell)))
}

pub open spec fn looks_like_table_row_spec(line: Seq<char>) -> bool {
    contains_seq(line, seq!['|']) && table_cells(line).len() >= 2
}

/// A cell of a separator row: at least three dashes, optionally with a colon
/// on either side.
pub open spec fn separator_cell(cell: Seq<char>) -> bool {
    let c2 = colons_stripped(trim(cell));
    c2.len() >= 3 && all_dashes(c2)
}

/// At most one colon dropped from each end.
pub open spec fn colons_stripped(c: Seq<char>) -> Seq<char> {
    let c1 = if c.len() > 0 && c[0] == ':' {
        c.drop_first()
    } else {
        c
    };
    if c1.len() > 0 && c1.last() == ':' {
        c1.drop_last()
    } else {
        c1
    }
}

pub open spec fn all_dashes(s: Seq<char>) -> bool {
    forall|i: int| 0 <= i < s.len() ==> #[trigger] s[i] == '-'
}

pub open spec fn table_separator_spec(line: Option<Seq<char>>) -> bool {
    match line {
        None => false,
        Some(l) => {
            let t = trim(l);
            let cells = table_cells(t);
            &&& contains_seq(t, seq!['|'])
            &&& cells.len() >= 2
            &&& forall|i: int| 0 <= i < cells.len() ==> separator_cell(#[trigger] cells[i])
        },
    }
}

/// The text of a link with `label` and `target`, as it is shown.
pub open spec fn link_text(label: Seq<char>, target: Seq<char>) -> Seq<char> {
    label + (if target.len() > 0 {
        seq![' ', '('] + target + seq![')']
    } else {
        Seq::empty()
    })
}

/// One step of `links_replaced`: the text before the first link, the link,
/// then the rest.
proof fn lemma_links_step(s: Seq<char>, o: int, c: int, t: int)
    requires
        find(s, seq!['[']) == Some(o),
        0 <= o < s.len(),
        find(s.skip(o + 1), seq![']', '(']) == Some(c),
        0 <= c,
        c + 2 <= s.skip(o + 1).len(),
        find(s.skip(o + 1).skip(c + 2), seq![')']) == Some(t),
        0 <= t < s.skip(o + 1).skip(c + 2).len(),
    ensures
        links_replaced(s) == s.take(o) + link_text(
            s.skip(o + 1).take(c),
            s.skip(o + 1).skip(c + 2).take(t),
        ) + links_replaced(s.skip(o + 1).skip(c + 2).skip(t + 1)),
{
    reveal(links_replaced);
    let target = s.skip(o + 1).skip(c + 2).take(t);
    assert(s.take(o) + s.skip(o + 1).take(c) + (if target.len() > 0 {
        seq![' ', '('] + target + seq![')']
    } else {
        Seq::<char>::empty()
    }) =~= s.take(o) + link_text(s.skip(o + 1).take(c), target));
}

/// Without a complete link the text is kept.
proof fn lemma_links_none(s: Seq<char>)
    requires
        find(s, seq!['[']) is None || (find(s, seq!['[']) matches Some(o) && 0 <= o < s.len() && (
        find(s.skip(o + 1), seq![']', '(']) is None || (find(s.skip(o + 1), seq![']', '('])
            matches Some(c) && 0 <= c && c + 2 <= s.skip(o + 1).len() && find(
            s.skip(o + 1).skip(c + 2),
            seq![')'],
        ) is None))),
    ensures
        links_replaced(s) == s,
{
    reveal(links_replaced);
}

/// Replaces Markdown links by `label (target)`.
pub fn replace_markdown_links(input: &[char]) -> (out: Vec<char>)
    ensures
        out@ == links_replaced(input@),
{
    let mut out: Vec<char> = Vec::new();
    let mut rest: usize = 0;
    let open_pat = ['['];
    let mid_pat = [']', '('];
    assert(input@.skip(0) == input@);
    while rest <= input.len()
        invariant
            rest <= input.len(),
            mid_pat@ == seq![']', '('],
            out@ + links_replaced(input@.skip(rest as int)) == links_replaced(input@),
        decreases input.len() - rest,
    {
        let ghost s = input@.skip(rest as int);
        let ghost out_before = out@;
        let open = match find_char_from(input, '[', rest) {
            Some(j) => j,
            None => {
                proof {
                    lemma_links_none(s);
                }
                let tail = slice_chars(input, rest, input.len());
                extend_chars(&mut out, tail.as_slice());
                assert(tail@ == s);
                return out;
            },
        };
        assert(s.skip(open - rest + 1) == input@.skip(open + 1));
        let close = match find_seq_from(input, mid_pat.as_slice(), open + 1) {
            Some(j) => j,
            None => {
                proof {
                    lemma_links_none(s);
                }
                let tail = slice_chars(input, rest, input.len());
                extend_chars(&mut out, tail.as_slice());
                assert(tail@ == s);
                return out;
            },
        };
        assert(input@.skip(open + 1).skip(close - (open + 1) + 2) == input@.skip(close + 2));
        let te = match find_char_from(input, ')', close + 2) {
            Some(j) => j,
            None => {
                proof {
                    lemma_links_none(s);
                }
                let tail = slice_chars(input, rest, input.len());
                extend_chars(&mut out, tail.as_slice());
                assert(tail@ == s);
                return out;
            },
        };
        let before = slice_chars(input, rest, open);
        let label = slice_chars(input, open + 1, close);
        let target = slice_chars(input, close + 2, te);
        extend_chars(&mut out, before.as_slice());
        extend_chars(&mut out, label.as_slice());
        if target.len() > 0 {
            out.push(' ');
            out.push('(');
            extend_chars(&mut out, target.as_slice());
            out.push(')');
        }
        proof {
            let o = open - rest;
            let c = close - (open + 1);
            let t = te - (close + 2);
            lemma_links_step(s, o, c, t);
            assert(before@ =~= s.take(o));
            assert(label@ =~= s.skip(o + 1).take(c));
            assert(target@ =~= s.skip(o + 1).skip(c + 2).take(t));
            assert(s.skip(o + 1).skip(c + 2).skip(t + 1) =~= input@.skip(te + 1));
            assert(out@ =~= out_before + s.take(o) + link_text(label@, target@));
        }
        rest = te + 1;
    }
    out
}

/// Drops backticks, asterisks and underscores.
pub fn remove_marks(input: &[char]) -> (out: Vec<char>)
    ensures
        out@ == marks_removed(input@),
{
    let mut out: Vec<char> = Vec::new();
    let mut i: usize = 0;
    while i < input.len()
        invariant
            i <= input.len(),
            out@ == marks_removed(input@.take(i as int)),
        decreases input.len() - i,
    {
        let c = input[i];
        assert(input@.take(i + 1).drop_last() == input@.take(i as int));
        if !(c == '`' || c == '*' || c == '_') {
            out.push(c);
        }
        i += 1;
    }
    assert(input@.take(input.len() as int) == input@);
    out
}

/// The readable text of inline Markdown: links written out, emphasis and
/// code marks dropped.
pub fn inline_display_chars(input: &[char]) -> (out: Vec<char>)
    ensures
        out@ == inline_display_spec(input@),
{
    let without_links = replace_markdown_links(input);
    remove_marks(without_links.as_slice())
}

/// The readable text of inline Markdown: links written out, emphasis and
/// code marks dropped.
pub fn inline_display_text(input: &str) -> (out: String)
    ensures
        out@ == inline_display_spec(input@),
{
    let v = chars_of(input);
    let r = inline_display_chars(v.as_slice());
    string_of(r.as_slice())
}

/// `str::split` on one character.
pub fn split_on(v: &[char], c: char) -> (parts: Vec<Vec<char>>)
    ensures
        views(parts@) == split_char(v@, c),
{
    let mut parts: Vec<Vec<char>> = Vec::new();
    let mut start: usize = 0;
    assert(v@.skip(0) == v@);
    loop
        invariant
            start <= v.len(),
            views(parts@) + split_char(v@.skip(start as int), c) == split_char(v@, c),
        decreases v.len() - start,
    {
        let ghost s = v@.skip(start as int);
        match find_char_from(v, c, start) {
            Some(j) => {
                let piece = slice_chars(v, start, j);
                let ghost before = parts@;
                parts.push(piece);
                proof {
                    assert(piece@ == s.take(j - start));
                    assert(s.skip(j - start + 1) == v@.skip(j + 1));
                    assert(split_char(s, c) == seq![piece@] + split_char(v@.skip(j + 1), c));
                    assert(views(parts@) =~= views(before).push(piece@));
                    assert(views(parts@) + split_char(v@.skip(j + 1), c) =~= views(before)
                        + split_char(s, c));
                }
                start = j + 1;
            },
            None => {
                let piece = slice_chars(v, start, v.len());
                let ghost before = parts@;
                parts.push(piece);
                proof {
                    assert(piece@ == s);
                    assert(views(parts@) =~= views(before).push(piece@));
                    assert(split_char(s, c) == seq![s]);
                    assert(views(parts@) =~= views(before) + split_char(s, c));
                }
                return parts;
            },
        }
    }
}

pub fn trim_chars_both(v: &[char]) -> (r: Vec<char>)
    ensures
        r@ == trim(v@),
{
    crate::text::trim_chars(v)
}

/// The cells of a table row, as readable text.
pub fn split_table_row(line: &[char]) -> (cells: Vec<Vec<char>>)
    ensures
        views(cells@) == table_cells(line@),
{
    let t = trim_chars_both(line);
    let a = strip_lead_exec(t.as_slice(), CharClass::Is('|'));
    let inner = strip_trail_exec(a.as_slice(), CharClass::Is('|'));
    let pieces = split_on(inner.as_slice(), '|');
    let ghost ps = split_char(inner@, '|');
    let mut cells: Vec<Vec<char>> = Vec::new();
    let mut i: usize = 0;
    while i < pieces.len()
        invariant
            i <= pieces.len(),
            views(pieces@) == ps,
            views(cells@) == ps.take(i as int).map_values(
                |cell: Seq<char>| inline_display_spec(trim(cell)),
            ),
        decreases pieces.len() - i,
    {
        let cell = trim_chars_both(pieces[i].as_slice());
        let shown = inline_display_chars(cell.as_slice());
        let ghost before = cells@;
        cells.push(shown);
        proof {
            assert(ps[i as int] == pieces@[i as int]@);
            assert(views(cells@) =~= views(before).push(shown@));
            assert(ps.take(i + 1).map_values(|cell: Seq<char>| inline_display_spec(trim(cell)))
                =~= ps.take(i as int).map_values(
                |cell: Seq<char>| inline_display_spec(trim(cell)),
            ).push(inline_display_spec(trim(ps[i as int]))));
        }
        i += 1;
    }
    assert(ps.take(pieces.len() as int) == ps);
    cells
}

/// Whether a (trimmed) line reads as a table row: it has a pipe and at least
/// two cells.
pub fn looks_like_table_row(line: &[char]) -> (b: bool)
    ensures
        b == looks_like_table_row_spec(line@),
{
    match find_char_from(line, '|', 0) {
        None => {
            assert(line@.skip(0) == line@);
            false
        },
        Some(_) => {
            assert(line@.skip(0) == line@);
            split_table_row(line).len() >= 2
        },
    }
}

#[verifier::loop_isolation(false)]
fn separator_cell_exec(cell: &[char]) -> (b: bool)
    ensures
        b == separator_cell(cell@),
{
    let c = trim_chars_both(cell);
    let c1 = if c.len() > 0 && c[0] == ':' {
        slice_chars(c.as_slice(), 1, c.len())
    } else {
        slice_chars(c.as_slice(), 0, c.len())
    };
    let c2 = if c1.len() > 0 && c1[c1.len() - 1] == ':' {
        slice_chars(c1.as_slice(), 0, c1.len() - 1)
    } else {
        slice_chars(c1.as_slice(), 0, c1.len())
    };
    assert(c@.subrange(0, c@.len() as int) == c@);
    assert(c1@.subrange(0, c1@.len() as int) == c1@);
    let ghost g1 = if c@.len() > 0 && c@[0] == ':' {
        c@.drop_first()
    } else {
        c@
    };
    assert(c1@ =~= g1);
    let ghost g2 = colons_stripped(c@);
    assert(c2@ =~= g2);
    if c2.len() < 3 {
        return false;
    }
    let mut i: usize = 0;
    while i < c2.len()
        invariant
            i <= c2.len(),
            forall|j: int| 0 <= j < i ==> c2@[j] == '-',
        decreases c2.len() - i,
    {
        if c2[i] != '-' {
            assert(c2@[i as int] != '-');
            assert(!all_dashes(c2@));
            return false;
        }
        i += 1;
    }
    true
}

/// Whether the line after a table header is a separator row such as
/// `| --- | :---: |`.
#[verifier::loop_isolation(false)]
pub fn is_table_separator_line(line: Option<&[char]>) -> (b: bool)
    ensures
        b == table_separator_spec(
            match line {
                Some(l) => Some(l@),
                None => None,
            },
        ),
{
    let raw = match line {
        Some(l) => l,
        None => {
            return false;
        },
    };
    let t = trim_chars_both(raw);
    assert(t@.skip(0) == t@);
    assert(line matches Some(l) && l@ == raw@);
    if find_char_from(t.as_slice(), '|', 0).is_none() {
        assert(!contains_seq(t@, seq!['|']));
        return false;
    }
    let cells = split_table_row(t.as_slice());
    if cells.len() < 2 {
        return false;
    }
    let mut i: usize = 0;
    while i < cells.len()
        invariant
            i <= cells.len(),
            views(cells@) == table_cells(trim(raw@)),
            forall|j: int| 0 <= j < i ==> separator_cell(#[trigger] cells@[j]@),
        decreases cells.len() - i,
    {
        if !separator_cell_exec(cells[i].as_slice()) {
            proof {
                assert(table_cells(trim(raw@))[i as int] == cells@[i as int]@);
            }
            return false;
        }
        i += 1;
    }
    proof {
        let cs = table_cells(trim(raw@));
        assert forall|j: int| 0 <= j < cs.len() implies separator_cell(#[trigger] cs[j]) by {
            assert(cs[j] == cells@[j]@);
        }
    }
    true
}

} // verus!
