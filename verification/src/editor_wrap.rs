//! Soft wrapping: how visible document lines break into screen rows.
use vstd::prelude::*;

verus! {

/// One screen row: columns `col_start..col_end` of document line `doc_line`;
/// `is_first` marks the row a line starts on.
#[derive(Clone, Copy, Debug, PartialEq, Eq, Structural)]
pub struct WrapRow {
    pub doc_line: usize,
    pub col_start: usize,
    pub col_end: usize,
    pub is_first: bool,
}

/// The wrap width: the visible columns, at least ten.
pub open spec fn wrap_width(visible_cols: usize) -> nat {
    if visible_cols < 10 {
        10
    } else {
        visible_cols as nat
    }
}

/// The rows that cover columns `col..len` of a line, `w` columns at a time.
pub open spec fn segments(doc_line: usize, col: nat, len: nat, w: nat, first: bool) -> Seq<WrapRow>
    decreases len - col,
{
    if col >= len || w == 0 {
        Seq::empty()
    } else {
        let end: nat = if len - col <= w {
            len
        } else {
            col + w
        };
        seq![
            WrapRow {
                doc_line,
                col_start: col as usize,
                col_end: end as usize,
                is_first: first,
            },
        ] + segments(doc_line, end, len, w, false)
    }
}

/// The rows of one line: a single empty row for an empty line.
pub open spec fn line_rows(doc_line: usize, len: nat, w: nat) -> Seq<WrapRow> {
    if len == 0 {
        seq![WrapRow { doc_line, col_start: 0, col_end: 0, is_first: true }]
    } else {
        segments(doc_line, 0, len, w, true)
    }
}

/// The rows of the visible lines, in order; `lens[l]` is the length of line `l`.
pub open spec fn wrap_rows_spec(visible: Seq<usize>, lens: Seq<usize>, w: nat) -> Seq<WrapRow>
    decreases visible.len(),
{
    if visible.len() == 0 {
        Seq::empty()
    } else {
        wrap_rows_spec(visible.drop_last(), lens, w) + line_rows(
            visible.last(),
            lens[visible.last() as int] as nat,
            w,
        )
    }
}

/// Breaks the visible lines into rows of at most `max(visible_cols, 10)`
/// columns; `line_lens[l]` is the length of document line `l`.
pub fn compute_wrap_rows(visible_doc_lines: &[usize], line_lens: &[usize], visible_cols: usize) -> (rows:
    Vec<WrapRow>)
    requires
        forall|i: int|
            0 <= i < visible_doc_lines@.len() ==> #[trigger] visible_doc_lines@[i]
                < line_lens@.len(),
    ensures
        rows@ == wrap_rows_spec(visible_doc_lines@, line_lens@, wrap_width(visible_cols)),
{
    let wrap_col: usize = if visible_cols < 10 {
        10
    } else {
        visible_cols
    };
    let ghost w = wrap_width(visible_cols);
    let mut rows: Vec<WrapRow> = Vec::new();
    let mut i: usize = 0;
    while i < visible_doc_lines.len()
        invariant
            i <= visible_doc_lines.len(),
            wrap_col == w,
            w == wrap_width(visible_cols),
            forall|k: int|
                0 <= k < visible_doc_lines@.len() ==> #[trigger] visible_doc_lines@[k]
                    < line_lens@.len(),
            rows@ == wrap_rows_spec(visible_doc_lines@.take(i as int), line_lens@, w),
        decreases visible_doc_lines.len() - i,
    {
        let doc_line = visible_doc_lines[i];
        let line_len = line_lens[doc_line];
        assert(visible_doc_lines@.take(i + 1).drop_last() =~= visible_doc_lines@.take(i as int));
        assert(visible_doc_lines@.take(i + 1).last() == doc_line);
        let ghost base = rows@;
        if line_len == 0 {
            rows.push(WrapRow { doc_line, col_start: 0, col_end: 0, is_first: true });
        } else {
            let mut col: usize = 0;
            let mut first = true;
            while col < line_len
                invariant
                    col <= line_len,
                    wrap_col == w,
                    w >= 10,
                    first == (col == 0),
                    rows@ + segments(doc_line, col as nat, line_len as nat, w, first) == base
                        + segments(doc_line, 0, line_len as nat, w, true),
                decreases line_len - col,
            {
                let end: usize = if line_len - col <= wrap_col {
                    line_len
                } else {
                    col + wrap_col
                };
                let row = WrapRow { doc_line, col_start: col, col_end: end, is_first: first };
                let ghost before = rows@;
                assert(segments(doc_line, col as nat, line_len as nat, w, first) == seq![row]
                    + segments(doc_line, end as nat, line_len as nat, w, false));
                rows.push(row);
                assert(before + (seq![row] + segments(doc_line, end as nat, line_len as nat, w, false))
                    =~= rows@ + segments(doc_line, end as nat, line_len as nat, w, false));
                first = false;
                col = end;
            }
            assert(rows@ + segments(doc_line, col as nat, line_len as nat, w, first) =~= rows@);
        }
        i += 1;
    }
    assert(visible_doc_lines@.take(visible_doc_lines.len() as int) =~= visible_doc_lines@);
    rows
}

/// The rows of a non-empty line tile it: they start at column zero, each
/// starts where the previous ended, each is non-empty and at most `w`
/// columns wide, only the first is marked first, and the last ends at the
/// line's end.
pub proof fn law_wrap_rows_tile_line(doc_line: usize, col: nat, len: nat, w: nat, first: bool)
    requires
        col < len <= usize::MAX,
        w > 0,
    ensures
        ({
            let rows = segments(doc_line, col, len, w, first);
            &&& rows.len() > 0
            &&& rows[0].col_start == col
            &&& rows[0].is_first == first
            &&& rows.last().col_end == len
            &&& forall|k: int|
                0 <= k < rows.len() ==> {
                    &&& (#[trigger] rows[k]).doc_line == doc_line
                    &&& rows[k].col_start < rows[k].col_end
                    &&& rows[k].col_end - rows[k].col_start <= w
                    &&& (k > 0 ==> !rows[k].is_first)
                }
            &&& forall|k: int| 0 < k < rows.len() ==> (#[trigger] rows[k]).col_start == rows[k - 1].col_end
        }),
    decreases len - col,
{
    let end: nat = if len - col <= w {
        len
    } else {
        col + w
    };
    let head = WrapRow { doc_line, col_start: col as usize, col_end: end as usize, is_first: first };
    let rest = segments(doc_line, end, len, w, false);
    let rows = segments(doc_line, col, len, w, first);
    assert(rows == seq![head] + rest);
    if end < len {
        law_wrap_rows_tile_line(doc_line, end, len, w, false);
        assert forall|k: int| 0 < k < rows.len() implies (#[trigger] rows[k]).col_start
            == rows[k - 1].col_end by {
            assert(rows[k] == rest[k - 1]);
            if k > 1 {
                assert(rows[k - 1] == rest[k - 2]);
            }
        }
        assert forall|k: int| 0 <= k < rows.len() implies {
            &&& (#[trigger] rows[k]).doc_line == doc_line
            &&& rows[k].col_start < rows[k].col_end
            &&& rows[k].col_end - rows[k].col_start <= w
            &&& (k > 0 ==> !rows[k].is_first)
        } by {
            if k > 0 {
                assert(rows[k] == rest[k - 1]);
            }
        }
    } else {
        assert(rest.len() == 0);
        assert(rows =~= seq![head]);
    }
}

/// Whether row `i` is the one the cursor at `(line, col)` is drawn on: the
/// row holds the column, or it is the line's last row and the column is at
/// or past its end.
pub open spec fn row_hit(rows: Seq<WrapRow>, i: int, line: usize, col: usize) -> bool {
    let row = rows[i];
    ||| row.doc_line == line && col >= row.col_start && (col < row.col_end || (row.col_end
        == row.col_start && col == 0))
    ||| row.doc_line == line && col >= row.col_end && (i + 1 >= rows.len() || rows[i + 1].doc_line
        != line)
}

/// The first row from `i` on that the cursor hits.
pub open spec fn first_hit(rows: Seq<WrapRow>, line: usize, col: usize, i: int) -> Option<int>
    decreases rows.len() - i,
{
    if i < 0 || i >= rows.len() {
        None
    } else if row_hit(rows, i, line, col) {
        Some(i)
    } else {
        first_hit(rows, line, col, i + 1)
    }
}

/// The row the cursor at `(line, col)` is drawn on: the first row it hits,
/// else the last row (zero when there is none).
pub fn wrap_row_for_cursor(rows: &[WrapRow], line: usize, col: usize) -> (r: usize)
    ensures
        r == match first_hit(rows@, line, col, 0) {
            Some(i) => i,
            None => if rows@.len() > 0 {
                rows@.len() - 1
            } else {
                0
            },
        },
{
    let mut i: usize = 0;
    while i < rows.len()
        invariant
            i <= rows.len(),
            first_hit(rows@, line, col, 0) == first_hit(rows@, line, col, i as int),
        decreases rows.len() - i,
    {
        let row = rows[i];
        if row.doc_line == line && col >= row.col_start && (col < row.col_end || (row.col_end
            == row.col_start && col == 0)) {
            return i;
        }
        let last_of_line = i + 1 >= rows.len() || rows[i + 1].doc_line != line;
        if row.doc_line == line && col >= row.col_end && last_of_line {
            return i;
        }
        i += 1;
    }
    if rows.len() > 0 {
        rows.len() - 1
    } else {
        0
    }
}

} // verus!
