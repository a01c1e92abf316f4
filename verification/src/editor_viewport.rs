//! Which part of the document the editor shows: scrolling to follow the
//! cursor and the window of rows that gets drawn.
use vstd::prelude::*;

use crate::editor_wrap::WrapRow;

verus! {

/// The last row the view may scroll to, for `row_count` rows (at least one).
pub open spec fn max_scroll_spec(row_count: usize) -> usize {
    if row_count <= 1 {
        0
    } else {
        (row_count - 1) as usize
    }
}

/// Keeps the first shown row within the document.
pub fn clamp_scroll_line(scroll_line: usize, row_count: usize) -> (r: usize)
    ensures
        r == (if scroll_line < max_scroll_spec(row_count) {
            scroll_line
        } else {
            max_scroll_spec(row_count)
        }),
{
    let max_scroll = if row_count <= 1 {
        0
    } else {
        row_count - 1
    };
    if scroll_line < max_scroll {
        scroll_line
    } else {
        max_scroll
    }
}

/// Where to scroll so that the cursor's row shows: up to it when it is
/// above the view, down until it is the last row when it is below; none
/// when it already shows.
pub fn scroll_target_for_cursor(cursor_row: usize, scroll_line: usize, visible_lines: usize) -> (r:
    Option<usize>)
    requires
        visible_lines >= 1,
        scroll_line + visible_lines <= usize::MAX,
    ensures
        r == (if cursor_row < scroll_line {
            Some(cursor_row)
        } else if cursor_row >= scroll_line + visible_lines {
            Some((cursor_row - (visible_lines - 1)) as usize)
        } else {
            None
        }),
        r matches Some(t) ==> t <= cursor_row && cursor_row < t + visible_lines,
{
    if cursor_row < scroll_line {
        Some(cursor_row)
    } else if cursor_row >= scroll_line + visible_lines {
        Some(cursor_row - (visible_lines - 1))
    } else {
        None
    }
}

/// The first shown column: none with word wrap; else the cursor's column
/// when it is left of the view, or far enough right to keep four columns
/// free after the cursor when it gets that close to the edge.
pub fn horizontal_scroll_col(scroll_col: usize, cursor_col: usize, visible_cols: usize, word_wrap: bool) -> (r:
    usize)
    requires
        scroll_col + visible_cols <= usize::MAX,
    ensures
        r == (if word_wrap {
            0
        } else if cursor_col < scroll_col {
            cursor_col
        } else if visible_cols > 4 && cursor_col >= scroll_col + (visible_cols - 4) {
            (cursor_col - (visible_cols - 4)) as usize
        } else if visible_cols <= 4 && cursor_col >= scroll_col {
            cursor_col
        } else {
            scroll_col
        }),
{
    if word_wrap {
        return 0;
    }
    let room: usize = if visible_cols > 4 {
        visible_cols - 4
    } else {
        0
    };
    if cursor_col < scroll_col {
        cursor_col
    } else if cursor_col >= scroll_col + room {
        cursor_col - room
    } else {
        scroll_col
    }
}

/// One past the last row drawn: the view's rows and two more, within the
/// document.
pub fn visible_window_end(scroll_line: usize, visible_lines: usize, row_count: usize) -> (r: usize)
    requires
        scroll_line + visible_lines + 2 <= usize::MAX,
    ensures
        r == (if scroll_line + visible_lines + 2 < row_count {
            (scroll_line + visible_lines + 2) as usize
        } else {
            row_count
        }),
{
    let end = scroll_line + visible_lines + 2;
    if end < row_count {
        end
    } else {
        row_count
    }
}

/// `s` with runs of equal neighbours kept once.
pub open spec fn dedup_spec(s: Seq<usize>) -> Seq<usize>
    decreases s.len(),
{
    if s.len() == 0 {
        Seq::empty()
    } else if s.len() >= 2 && s.last() == s[s.len() - 2] {
        dedup_spec(s.drop_last())
    } else {
        dedup_spec(s.drop_last()).push(s.last())
    }
}

/// The document lines of some rows, in order.
pub open spec fn row_lines(rows: Seq<WrapRow>) -> Seq<usize> {
    rows.map_values(|r: WrapRow| r.doc_line)
}

/// The document lines that rows `start..end` show, each run once (for
/// syntax highlighting).
pub fn window_doc_lines(rows: &[WrapRow], start: usize, end: usize) -> (lines: Vec<usize>)
    requires
        start <= end <= rows@.len(),
    ensures
        lines@ == dedup_spec(row_lines(rows@.subrange(start as int, end as int))),
{
    let ghost window = rows@.subrange(start as int, end as int);
    let mut lines: Vec<usize> = Vec::new();
    let mut i: usize = start;
    while i < end
        invariant
            start <= i <= end,
            end <= rows@.len(),
            window == rows@.subrange(start as int, end as int),
            lines@ == dedup_spec(row_lines(window.take(i - start))),
            i > start ==> lines@.len() > 0 && lines@.last() == rows@[i - 1].doc_line,
        decreases end - i,
    {
        let line = rows[i].doc_line;
        let ghost prefix = window.take(i - start + 1);
        assert(window.take(i - start + 1).drop_last() =~= window.take(i - start));
        assert(row_lines(prefix).drop_last() =~= row_lines(window.take(i - start)));
        assert(row_lines(prefix).last() == line);
        if i > start {
            assert(row_lines(prefix)[row_lines(prefix).len() - 2] == rows@[i - 1].doc_line);
        }
        let last = lines.len();
        if last > 0 && i > start && lines[last - 1] == line {
        } else {
            lines.push(line);
        }
        i += 1;
    }
    assert(window.take(end - start) =~= window);
    lines
}

/// Deduplicating neighbours leaves no two equal neighbours.
pub proof fn law_dedup_no_equal_neighbours(s: Seq<usize>)
    ensures
        forall|i: int| 0 <= i < dedup_spec(s).len() - 1 ==> #[trigger] dedup_spec(s)[i] != dedup_spec(s)[i + 1],
        s.len() > 0 ==> dedup_spec(s).len() > 0 && dedup_spec(s).last() == s.last(),
    decreases s.len(),
{
    if s.len() > 0 {
        law_dedup_no_equal_neighbours(s.drop_last());
        let d = dedup_spec(s.drop_last());
        if s.len() >= 2 && s.last() == s[s.len() - 2] {
            assert(s.drop_last().last() == s[s.len() - 2]);
        } else {
            if s.len() >= 2 {
                assert(s.drop_last().last() == s[s.len() - 2]);
                assert(d.last() != s.last());
            }
            assert forall|i: int| 0 <= i < d.push(s.last()).len() - 1 implies #[trigger] d.push(
                s.last(),
            )[i] != d.push(s.last())[i + 1] by {
                if i < d.len() - 1 {
                    assert(d.push(s.last())[i] == d[i]);
                    assert(d.push(s.last())[i + 1] == d[i + 1]);
                }
            }
        }
    }
}

/// The range of document lines to highlight: from the first line shown to
/// one past the last.
pub fn syntax_line_range(window: &[usize]) -> (r: (usize, usize))
    requires
        window@.len() > 0 ==> window@.last() < usize::MAX,
    ensures
        r == (if window@.len() == 0 {
            (0usize, 0usize)
        } else {
            (window@[0], (window@.last() + 1) as usize)
        }),
{
    if window.len() == 0 {
        (0, 0)
    } else {
        (window[0], window[window.len() - 1] + 1)
    }
}

} // verus!
