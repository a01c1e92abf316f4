//! Code folding: which ranges are folded and which document lines stay visible.
use vstd::prelude::*;

use crate::editor::{BufferView, KeyAction};

verus! {

/// A foldable region of a document, by zero-based line numbers.
#[derive(Clone, Copy, Debug, PartialEq, Eq, Structural)]
pub struct FoldRange {
    pub start_line: usize,
    pub end_line: usize,
}

/// The folding operations an editor command can request.
#[derive(Clone, Copy, Debug, PartialEq, Eq, Structural)]
pub enum FoldingCommand {
    FoldCurrent,
    UnfoldCurrent,
    FoldAll,
    UnfoldAll,
}

// ---------------------------------------------------------------------------
// Orderings on fold ranges
// ---------------------------------------------------------------------------

/// Strict order by start line, then by end line (ascending, or descending when
/// `desc_end`).
pub open spec fn key_lt(a: FoldRange, b: FoldRange, desc_end: bool) -> bool {
    ||| a.start_line < b.start_line
    ||| (a.start_line == b.start_line && (if desc_end {
        a.end_line > b.end_line
    } else {
        a.end_line < b.end_line
    }))
}

pub open spec fn strictly_sorted(s: Seq<FoldRange>, desc_end: bool) -> bool {
    forall|i: int, j: int| 0 <= i < j < s.len() ==> key_lt(#[trigger] s[i], #[trigger] s[j], desc_end)
}

/// `outer` covers every line of `inner`.
pub open spec fn covers(outer: FoldRange, inner: FoldRange) -> bool {
    outer.start_line <= inner.start_line && outer.end_line >= inner.end_line
}

/// `r` occurs in `s` and no other range of `s` covers it.
pub open spec fn is_top_level_in(s: Seq<FoldRange>, r: FoldRange) -> bool {
    &&& s.contains(r)
    &&& forall|i: int| 0 <= i < s.len() && covers(#[trigger] s[i], r) ==> s[i] == r
}

/// A range that may stay folded in a document of `line_count` lines.
pub open spec fn valid_fold(r: FoldRange, line_count: nat) -> bool {
    r.start_line < r.end_line && r.end_line < line_count
}

fn key_lt_exec(a: FoldRange, b: FoldRange, desc_end: bool) -> (r: bool)
    ensures
        r == key_lt(a, b, desc_end),
{
    a.start_line < b.start_line || (a.start_line == b.start_line && (if desc_end {
        a.end_line > b.end_line
    } else {
        a.end_line < b.end_line
    }))
}

/// Inserts `r` into a strictly sorted vector unless it is already there.
fn insert_sorted_unique(v: &mut Vec<FoldRange>, r: FoldRange, desc_end: bool)
    requires
        strictly_sorted(old(v)@, desc_end),
    ensures
        strictly_sorted(final(v)@, desc_end),
        forall|x: FoldRange| #[trigger] final(v)@.contains(x) <==> (old(v)@.contains(x) || x == r),
{
    let mut i: usize = 0;
    while i < v.len() && key_lt_exec(v[i], r, desc_end)
        invariant
            i <= v.len(),
            forall|j: int| 0 <= j < i ==> key_lt(#[trigger] v@[j], r, desc_end),
        decreases v.len() - i,
    {
        i += 1;
    }
    if i < v.len() && v[i] == r {
        assert(v@.contains(r));
        return;
    }
    let ghost old_v = v@;
    assert(old_v == old(v)@);
    v.insert(i, r);
    proof {
        assert(v@ == old_v.take(i as int).push(r) + old_v.skip(i as int));
        assert forall|a: int, b: int| 0 <= a < b < v@.len() implies key_lt(
            #[trigger] v@[a],
            #[trigger] v@[b],
            desc_end,
        ) by {
            if b < i {
                assert(v@[a] == old_v[a] && v@[b] == old_v[b]);
            } else if b == i {
                assert(v@[a] == old_v[a]);
            } else if a == i {
                assert(v@[b] == old_v[b - 1]);
                assert(key_lt(r, old_v[i as int], desc_end) || old_v[i as int] == r);
                if b - 1 > i {
                    assert(key_lt(old_v[i as int], old_v[b - 1], desc_end));
                }
            } else if a < i {
                assert(v@[a] == old_v[a] && v@[b] == old_v[b - 1]);
            } else {
                assert(v@[a] == old_v[a - 1] && v@[b] == old_v[b - 1]);
            }
        }
        assert forall|x: FoldRange| v@.contains(x) <==> (old_v.contains(x) || x == r) by {
            if v@.contains(x) {
                let k = choose|k: int| 0 <= k < v@.len() && v@[k] == x;
                if k < i {
                    assert(old_v[k] == x);
                } else if k > i {
                    assert(old_v[k - 1] == x);
                }
            }
            if old_v.contains(x) {
                let k = choose|k: int| 0 <= k < old_v.len() && old_v[k] == x;
                if k < i {
                    assert(v@[k] == x);
                } else {
                    assert(v@[k + 1] == x);
                }
            }
            if x == r {
                assert(v@[i as int] == r);
            }
        }
    }
}

// ---------------------------------------------------------------------------
// Lookups
// ---------------------------------------------------------------------------

/// The first folded range that starts on `line`.
pub open spec fn fold_starting_at(s: Seq<FoldRange>, line: int) -> Option<FoldRange>
    decreases s.len(),
{
    if s.len() == 0 {
        None
    } else if s[0].start_line == line {
        Some(s[0])
    } else {
        fold_starting_at(s.drop_first(), line)
    }
}

pub proof fn lemma_fold_starting_at(s: Seq<FoldRange>, line: int)
    ensures
        match fold_starting_at(s, line) {
            Some(r) => exists|i: int|
                0 <= i < s.len() && s[i] == r && r.start_line == line && forall|j: int|
                    0 <= j < i ==> (#[trigger] s[j]).start_line != line,
            None => forall|i: int| 0 <= i < s.len() ==> (#[trigger] s[i]).start_line != line,
        },
    decreases s.len(),
{
    if s.len() > 0 && s[0].start_line != line {
        lemma_fold_starting_at(s.drop_first(), line);
        match fold_starting_at(s.drop_first(), line) {
            Some(r) => {
                let i = choose|i: int|
                    0 <= i < s.drop_first().len() && s.drop_first()[i] == r && r.start_line
                        == line && forall|j: int|
                        0 <= j < i ==> (#[trigger] s.drop_first()[j]).start_line != line;
                assert(s[i + 1] == r);
                assert forall|j: int| 0 <= j < i + 1 implies (#[trigger] s[j]).start_line
                    != line by {
                    if j > 0 {
                        assert(s[j] == s.drop_first()[j - 1]);
                    }
                }
            },
            None => {
                assert forall|i: int| 0 <= i < s.len() implies (#[trigger] s[i]).start_line
                    != line by {
                    if i > 0 {
                        assert(s[i] == s.drop_first()[i - 1]);
                    }
                }
            },
        }
    } else if s.len() > 0 {
        assert(s[0].start_line == line);
    }
}

/// The first folded range that starts on `line`, if any.
pub fn folded_range_starting_at(folded_ranges: &[FoldRange], line: usize) -> (r: Option<
    FoldRange,
>)
    ensures
        r == fold_starting_at(folded_ranges@, line as int),
{
    let mut i: usize = 0;
    assert(folded_ranges@.skip(0) == folded_ranges@);
    while i < folded_ranges.len()
        invariant
            i <= folded_ranges.len(),
            fold_starting_at(folded_ranges@, line as int) == fold_starting_at(
                folded_ranges@.skip(i as int),
                line as int,
            ),
        decreases folded_ranges.len() - i,
    {
        assert(folded_ranges@.skip(i as int).drop_first() == folded_ranges@.skip(i + 1));
        if folded_ranges[i].start_line == line {
            return Some(folded_ranges[i]);
        }
        i += 1;
    }
    None
}

/// Whether some folded range starts on `line`.
pub fn is_range_folded(folded_ranges: &[FoldRange], line: usize) -> (b: bool)
    ensures
        b == exists|i: int|
            0 <= i < folded_ranges@.len() && (#[trigger] folded_ranges@[i]).start_line == line,
{
    let mut i: usize = 0;
    while i < folded_ranges.len()
        invariant
            i <= folded_ranges.len(),
            forall|j: int| 0 <= j < i ==> (#[trigger] folded_ranges@[j]).start_line != line,
        decreases folded_ranges.len() - i,
    {
        if folded_ranges[i].start_line == line {
            return true;
        }
        i += 1;
    }
    false
}

/// `r` is a candidate for folding the block around `line`.
pub open spec fn contains_line(r: FoldRange, line: int) -> bool {
    r.start_line <= line && line < r.end_line
}

pub open spec fn span(r: FoldRange) -> int {
    r.end_line - r.start_line
}

/// `r` is the first of the narrowest ranges of `s` that satisfy `cand`:
/// the contract of `min_by_key` over the candidates.
pub open spec fn is_first_narrowest(
    s: Seq<FoldRange>,
    cand: spec_fn(FoldRange) -> bool,
    r: FoldRange,
) -> bool {
    exists|i: int|
        0 <= i < s.len() && s[i] == r && cand(r) && (forall|j: int|
            0 <= j < s.len() && cand(#[trigger] s[j]) ==> span(s[j]) >= span(r)) && (forall|
            j: int,
        | 0 <= j < i && cand(#[trigger] s[j]) ==> span(s[j]) > span(r))
}

/// The narrowest range holding `line` (the first one on ties).
pub fn best_fold_range_containing(ranges: &[FoldRange], line: usize) -> (r: Option<FoldRange>)
    ensures
        match r {
            Some(f) => is_first_narrowest(ranges@, |x: FoldRange| contains_line(x, line as int), f),
            None => forall|i: int| 0 <= i < ranges@.len() ==> !contains_line(#[trigger] ranges@[i], line as int),
        },
{
    let ghost cand = |x: FoldRange| contains_line(x, line as int);
    let mut best: Option<FoldRange> = None;
    let ghost mut best_idx: int = 0;
    let mut i: usize = 0;
    while i < ranges.len()
        invariant
            i <= ranges.len(),
            cand == (|x: FoldRange| contains_line(x, line as int)),
            match best {
                Some(f) => 0 <= best_idx < i && ranges@[best_idx] == f && cand(f) && (forall|
                    j: int,
                | 0 <= j < i && cand(#[trigger] ranges@[j]) ==> span(ranges@[j]) >= span(f))
                    && (forall|j: int|
                    0 <= j < best_idx && cand(#[trigger] ranges@[j]) ==> span(ranges@[j]) > span(
                        f,
                    )),
                None => forall|j: int| 0 <= j < i ==> !cand(#[trigger] ranges@[j]),
            },
        decreases ranges.len() - i,
    {
        let r = ranges[i];
        if r.start_line <= line && line < r.end_line {
            match best {
                Some(b) => {
                    if r.end_line - r.start_line < b.end_line - b.start_line {
                        best = Some(r);
                        proof {
                            best_idx = i as int;
                        }
                    }
                },
                None => {
                    best = Some(r);
                    proof {
                        best_idx = i as int;
                    }
                },
            }
        }
        i += 1;
    }
    proof {
        if let Some(f) = best {
            assert(is_first_narrowest(ranges@, cand, f));
        }
    }
    best
}

/// The narrowest range starting on `line` (the first one on ties).
pub fn best_fold_range_starting_at(ranges: &[FoldRange], line: usize) -> (r: Option<FoldRange>)
    requires
        forall|i: int|
            0 <= i < ranges@.len() && (#[trigger] ranges@[i]).start_line == line
                ==> ranges@[i].start_line <= ranges@[i].end_line,
    ensures
        match r {
            Some(f) => is_first_narrowest(ranges@, |x: FoldRange| x.start_line == line, f),
            None => forall|i: int| 0 <= i < ranges@.len() ==> (#[trigger] ranges@[i]).start_line != line,
        },
{
    let ghost cand = |x: FoldRange| x.start_line == line;
    let mut best: Option<FoldRange> = None;
    let ghost mut best_idx: int = 0;
    let mut i: usize = 0;
    while i < ranges.len()
        invariant
            i <= ranges.len(),
            cand == (|x: FoldRange| x.start_line == line),
            forall|k: int|
                0 <= k < ranges@.len() && (#[trigger] ranges@[k]).start_line == line
                    ==> ranges@[k].start_line <= ranges@[k].end_line,
            match best {
                Some(f) => 0 <= best_idx < i && ranges@[best_idx] == f && cand(f) && (forall|
                    j: int,
                | 0 <= j < i && cand(#[trigger] ranges@[j]) ==> span(ranges@[j]) >= span(f))
                    && (forall|j: int|
                    0 <= j < best_idx && cand(#[trigger] ranges@[j]) ==> span(ranges@[j]) > span(
                        f,
                    )),
                None => forall|j: int| 0 <= j < i ==> !cand(#[trigger] ranges@[j]),
            },
        decreases ranges.len() - i,
    {
        let r = ranges[i];
        if r.start_line == line {
            assert(ranges@[i as int].start_line == line);
            match best {
                Some(b) => {
                    if r.end_line - r.start_line < b.end_line - b.start_line {
                        best = Some(r);
                        proof {
                            best_idx = i as int;
                        }
                    }
                },
                None => {
                    best = Some(r);
                    proof {
                        best_idx = i as int;
                    }
                },
            }
        }
        i += 1;
    }
    proof {
        if let Some(f) = best {
            assert(is_first_narrowest(ranges@, cand, f));
        }
    }
    best
}

// ---------------------------------------------------------------------------
// Editing the folded set
// ---------------------------------------------------------------------------

/// Folds `range` unless it is empty or already folded.
pub fn add_fold_range(folded_ranges: &mut Vec<FoldRange>, range: FoldRange)
    ensures
        final(folded_ranges)@ == (if range.start_line >= range.end_line || old(
            folded_ranges,
        )@.contains(range) {
            old(folded_ranges)@
        } else {
            old(folded_ranges)@.push(range)
        }),
{
    if range.start_line >= range.end_line {
        return;
    }
    let mut i: usize = 0;
    while i < folded_ranges.len()
        invariant
            i <= folded_ranges.len(),
            forall|j: int| 0 <= j < i ==> folded_ranges@[j] != range,
        decreases folded_ranges.len() - i,
    {
        if folded_ranges[i] == range {
            assert(folded_ranges@.contains(range));
            return;
        }
        i += 1;
    }
    folded_ranges.push(range);
}

/// Index of the first element of `s` satisfying `p`.
pub open spec fn first_index(s: Seq<FoldRange>, p: spec_fn(FoldRange) -> bool) -> Option<int> {
    if exists|i: int| 0 <= i < s.len() && p(#[trigger] s[i]) {
        Some(
            choose|i: int|
                0 <= i < s.len() && p(s[i]) && forall|j: int| 0 <= j < i ==> !p(#[trigger] s[j]),
        )
    } else {
        None
    }
}

/// `s` without its first element satisfying `p`.
pub open spec fn remove_first(s: Seq<FoldRange>, p: spec_fn(FoldRange) -> bool) -> Seq<FoldRange> {
    match first_index(s, p) {
        Some(i) => s.remove(i),
        None => s,
    }
}

/// `i` is the first index of `s` satisfying `p`: then `first_index` names it.
pub proof fn lemma_first_index(s: Seq<FoldRange>, p: spec_fn(FoldRange) -> bool, i: int)
    requires
        0 <= i < s.len(),
        p(s[i]),
        forall|j: int| 0 <= j < i ==> !p(#[trigger] s[j]),
    ensures
        first_index(s, p) == Some(i),
{
    let k = choose|k: int|
        0 <= k < s.len() && p(s[k]) && forall|j: int| 0 <= j < k ==> !p(#[trigger] s[j]);
    if k < i {
        assert(!p(s[k]));
    } else if k > i {
        assert(!p(s[i]));
    }
}

/// Removes the first folded range `[i]` that satisfies `p`, returning whether
/// one was removed.
fn remove_first_matching(
    folded_ranges: &mut Vec<FoldRange>,
    line: usize,
    exact: Option<FoldRange>,
) -> (removed: bool)
    ensures
        ({
            let p = match exact {
                Some(x) => |r: FoldRange| r == x,
                None => |r: FoldRange| r.start_line <= line && line <= r.end_line,
            };
            &&& final(folded_ranges)@ == remove_first(old(folded_ranges)@, p)
            &&& removed == (first_index(old(folded_ranges)@, p) is Some)
        }),
{
    let ghost p = match exact {
        Some(x) => |r: FoldRange| r == x,
        None => |r: FoldRange| r.start_line <= line && line <= r.end_line,
    };
    let mut i: usize = 0;
    while i < folded_ranges.len()
        invariant
            i <= folded_ranges.len(),
            folded_ranges@ == old(folded_ranges)@,
            p == (match exact {
                Some(x) => |r: FoldRange| r == x,
                None => |r: FoldRange| r.start_line <= line && line <= r.end_line,
            }),
            forall|j: int| 0 <= j < i ==> !p(#[trigger] folded_ranges@[j]),
        decreases folded_ranges.len() - i,
    {
        let r = folded_ranges[i];
        let hit = match exact {
            Some(x) => r == x,
            None => r.start_line <= line && line <= r.end_line,
        };
        if hit {
            proof {
                lemma_first_index(folded_ranges@, p, i as int);
            }
            folded_ranges.remove(i);
            return true;
        }
        i += 1;
    }
    proof {
        assert(!(exists|j: int| 0 <= j < folded_ranges@.len() && p(#[trigger] folded_ranges@[j])));
    }
    false
}

/// Unfolds the first folded range that holds `line`.
pub fn unfold_at_line(folded_ranges: &mut Vec<FoldRange>, line: usize)
    ensures
        final(folded_ranges)@ == remove_first(
            old(folded_ranges)@,
            |r: FoldRange| r.start_line <= line && line <= r.end_line,
        ),
{
    remove_first_matching(folded_ranges, line, None);
}

/// Unfolds `range` if it is folded, else folds it.
pub fn toggle_fold_range(folded_ranges: &mut Vec<FoldRange>, range: FoldRange)
    ensures
        final(folded_ranges)@ == (if old(folded_ranges)@.contains(range) {
            remove_first(old(folded_ranges)@, |r: FoldRange| r == range)
        } else if range.start_line >= range.end_line {
            old(folded_ranges)@
        } else {
            old(folded_ranges)@.push(range)
        }),
{
    let ghost p = |r: FoldRange| r == range;
    let removed = remove_first_matching(folded_ranges, 0, Some(range));
    proof {
        if old(folded_ranges)@.contains(range) {
            let k = choose|k: int| 0 <= k < old(folded_ranges)@.len() && old(folded_ranges)@[k] == range;
            assert(p(old(folded_ranges)@[k]));
        } else {
            assert(!(exists|i: int| 0 <= i < old(folded_ranges)@.len() && p(#[trigger] old(folded_ranges)@[i])));
        }
    }
    if !removed {
        add_fold_range(folded_ranges, range);
    }
}

/// The ranges of `foldable_ranges` that no other range covers, each once,
/// ordered by start line and then by decreasing end line.
pub fn top_level_fold_ranges(foldable_ranges: &[FoldRange]) -> (r: Vec<FoldRange>)
    ensures
        strictly_sorted(r@, true),
        forall|x: FoldRange| #[trigger] r@.contains(x) <==> is_top_level_in(foldable_ranges@, x),
{
    let mut out: Vec<FoldRange> = Vec::new();
    let n = foldable_ranges.len();
    let mut i: usize = 0;
    while i < n
        invariant
            i <= n == foldable_ranges.len(),
            strictly_sorted(out@, true),
            forall|x: FoldRange|
                #[trigger] out@.contains(x) <==> (is_top_level_in(foldable_ranges@, x)
                    && foldable_ranges@.take(i as int).contains(x)),
        decreases n - i,
    {
        let r = foldable_ranges[i];
        let mut covered = false;
        let mut j: usize = 0;
        while j < n
            invariant
                j <= n == foldable_ranges.len(),
                r == foldable_ranges@[i as int],
                covered == exists|k: int|
                    0 <= k < j && covers(#[trigger] foldable_ranges@[k], r)
                        && foldable_ranges@[k] != r,
            decreases n - j,
        {
            let q = foldable_ranges[j];
            if q.start_line <= r.start_line && q.end_line >= r.end_line && q != r {
                covered = true;
            }
            j += 1;
        }
        proof {
            if covered {
                let k = choose|k: int|
                    0 <= k < n && covers(#[trigger] foldable_ranges@[k], r)
                        && foldable_ranges@[k] != r;
                assert(!is_top_level_in(foldable_ranges@, r));
            } else {
                assert(foldable_ranges@[i as int] == r);
                assert(is_top_level_in(foldable_ranges@, r));
            }
            lemma_take_push_contains(foldable_ranges@, i as int);
        }
        if !covered {
            insert_sorted_unique(&mut out, r, true);
        }
        i += 1;
    }
    assert(foldable_ranges@.take(i as int) == foldable_ranges@);
    out
}

// ---------------------------------------------------------------------------
// Applying folding commands to a view
// ---------------------------------------------------------------------------

/// Whether `x` is among the folded ranges right after `command`, before they
/// are cleaned up.
pub open spec fn step_contains(
    folded: Seq<FoldRange>,
    foldable: Seq<FoldRange>,
    cursor_line: int,
    command: FoldingCommand,
    x: FoldRange,
) -> bool {
    match command {
        FoldingCommand::FoldAll => is_top_level_in(foldable, x),
        FoldingCommand::UnfoldAll => false,
        FoldingCommand::FoldCurrent => folded.contains(x) || is_first_narrowest(
            foldable,
            |r: FoldRange| contains_line(r, cursor_line),
            x,
        ),
        FoldingCommand::UnfoldCurrent => remove_first(
            folded,
            |r: FoldRange| r.start_line <= cursor_line && cursor_line <= r.end_line,
        ).contains(x),
    }
}

/// The folded set after `command`: the ranges of `folding_step` that are
/// valid for the document, sorted by start and end line, without repeats.
pub open spec fn folded_after(
    folded: Seq<FoldRange>,
    foldable: Seq<FoldRange>,
    cursor_line: int,
    line_count: nat,
    command: FoldingCommand,
    result: Seq<FoldRange>,
) -> bool {
    &&& strictly_sorted(result, false)
    &&& forall|x: FoldRange|
        #[trigger] result.contains(x) <==> (step_contains(folded, foldable, cursor_line, command, x)
            && valid_fold(x, line_count))
}

/// Sorts the valid ranges of `v` by start and end line, dropping repeats.
fn normalize_folds(v: &Vec<FoldRange>, line_count: usize) -> (r: Vec<FoldRange>)
    ensures
        strictly_sorted(r@, false),
        forall|x: FoldRange| #[trigger] r@.contains(x) <==> (v@.contains(x) && valid_fold(x, line_count as nat)),
{
    let mut out: Vec<FoldRange> = Vec::new();
    let mut i: usize = 0;
    while i < v.len()
        invariant
            i <= v.len(),
            strictly_sorted(out@, false),
            forall|x: FoldRange|
                #[trigger] out@.contains(x) <==> (valid_fold(x, line_count as nat) && v@.take(
                    i as int,
                ).contains(x)),
        decreases v.len() - i,
    {
        let r = v[i];
        let ghost before = out@;
        if r.start_line < r.end_line && r.end_line < line_count {
            insert_sorted_unique(&mut out, r, false);
        }
        proof {
            lemma_take_push_contains(v@, i as int);
        }
        i += 1;
    }
    assert(v@.take(i as int) == v@);
    out
}

/// The first `i + 1` elements hold exactly the first `i` ones and `s[i]`.
pub proof fn lemma_take_push_contains(s: Seq<FoldRange>, i: int)
    requires
        0 <= i < s.len(),
    ensures
        forall|x: FoldRange|
            #[trigger] s.take(i + 1).contains(x) <==> (s.take(i).contains(x) || x == s[i]),
{
    let t = s.take(i + 1);
    assert(t == s.take(i).push(s[i]));
    assert forall|x: FoldRange| #[trigger] s.take(i + 1).contains(x) <==> (s.take(i).contains(x) || x == s[i]) by {
        if t.contains(x) {
            let k = choose|k: int| 0 <= k < t.len() && t[k] == x;
            if k < i {
                assert(s.take(i)[k] == x);
            }
        }
        let u = s.take(i);
        if u.contains(x) {
            let k = choose|k: int| 0 <= k < u.len() && u[k] == x;
            assert(t[k] == x);
        }
        if x == s[i] {
            assert(t[i] == x);
        }
    }
}

/// Applies a folding command to the folded ranges of `view`, given the
/// ranges that the syntax tree allows to fold.
pub fn apply_folding_command(
    view: &mut BufferView,
    foldable_ranges: &[FoldRange],
    line_count: usize,
    command: FoldingCommand,
)
    ensures
        folded_after(
            old(view).folded_ranges@,
            foldable_ranges@,
            old(view).cursor.pos.line as int,
            line_count as nat,
            command,
            final(view).folded_ranges@,
        ),
        final(view).cursor == old(view).cursor,
        final(view).markdown_mode == old(view).markdown_mode,
{
    let line = view.cursor.pos.line;
    let ghost old_folded = view.folded_ranges@;
    let mut step: Vec<FoldRange> = Vec::new();
    match command {
        FoldingCommand::FoldAll => {
            step = top_level_fold_ranges(foldable_ranges);
        },
        FoldingCommand::UnfoldAll => {},
        FoldingCommand::FoldCurrent => {
            step = copy_folds(&view.folded_ranges);
            let best = best_fold_range_containing(foldable_ranges, line);
            match best {
                Some(range) => {
                    add_fold_range(&mut step, range);
                    proof {
                        let cand = |x: FoldRange| contains_line(x, line as int);
                        assert forall|x: FoldRange| is_first_narrowest(foldable_ranges@, cand, x) <==> x == range by {
                            if is_first_narrowest(foldable_ranges@, cand, x) {
                                lemma_first_narrowest_unique(foldable_ranges@, cand, range, x);
                            }
                        }
                        assert forall|x: FoldRange| step@.contains(x) <==> (old_folded.contains(x) || x == range) by {
                            if x == range && !old_folded.contains(x) {
                                assert(step@[step@.len() - 1] == x);
                            }
                            if step@.contains(x) && !old_folded.contains(x) && step@ != old_folded {
                                let k = choose|k: int| 0 <= k < step@.len() && step@[k] == x;
                                if k < old_folded.len() {
                                    assert(old_folded[k] == x);
                                }
                            }
                        }
                    }
                },
                None => {
                    proof {
                        let cand = |x: FoldRange| contains_line(x, line as int);
                        assert forall|x: FoldRange| !is_first_narrowest(foldable_ranges@, cand, x) by {
                            if is_first_narrowest(foldable_ranges@, cand, x) {
                                let i = choose|i: int| 0 <= i < foldable_ranges@.len() && foldable_ranges@[i] == x && cand(x);
                                assert(!contains_line(foldable_ranges@[i], line as int));
                            }
                        }
                    }
                },
            }
        },
        FoldingCommand::UnfoldCurrent => {
            step = copy_folds(&view.folded_ranges);
            unfold_at_line(&mut step, line);
        },
    }
    assert(forall|x: FoldRange| #[trigger] step@.contains(x) <==> step_contains(old_folded, foldable_ranges@, line as int, command, x));
    let normalized = normalize_folds(&step, line_count);
    view.folded_ranges = normalized;
    assert(forall|x: FoldRange| #[trigger] view.folded_ranges@.contains(x) <==> (step@.contains(x) && valid_fold(x, line_count as nat)));
}

fn copy_folds(v: &Vec<FoldRange>) -> (r: Vec<FoldRange>)
    ensures
        r@ == v@,
{
    let mut r: Vec<FoldRange> = Vec::new();
    let mut i: usize = 0;
    while i < v.len()
        invariant
            i <= v.len(),
            r@ == v@.take(i as int),
        decreases v.len() - i,
    {
        r.push(v[i]);
        assert(v@.take(i as int).push(v@[i as int]) == v@.take(i + 1));
        i += 1;
    }
    assert(v@.take(i as int) == v@);
    r
}

/// Two witnesses of `is_first_narrowest` are the same range.
pub proof fn lemma_first_narrowest_unique(
    s: Seq<FoldRange>,
    cand: spec_fn(FoldRange) -> bool,
    a: FoldRange,
    b: FoldRange,
)
    requires
        is_first_narrowest(s, cand, a),
        is_first_narrowest(s, cand, b),
    ensures
        a == b,
{
    let i = choose|i: int|
        0 <= i < s.len() && s[i] == a && cand(a) && (forall|j: int|
            0 <= j < s.len() && cand(#[trigger] s[j]) ==> span(s[j]) >= span(a)) && (forall|
            j: int,
        | 0 <= j < i && cand(#[trigger] s[j]) ==> span(s[j]) > span(a));
    let k = choose|k: int|
        0 <= k < s.len() && s[k] == b && cand(b) && (forall|j: int|
            0 <= j < s.len() && cand(#[trigger] s[j]) ==> span(s[j]) >= span(b)) && (forall|
            j: int,
        | 0 <= j < k && cand(#[trigger] s[j]) ==> span(s[j]) > span(b));
    assert(span(s[i]) >= span(b) && span(s[k]) >= span(a));
    if i < k {
        assert(span(s[i]) > span(b));
    } else if k < i {
        assert(span(s[k]) > span(a));
    }
}

/// The folding command a key press asks for, if any (fold-all first).
pub open spec fn key_folding_command(action: KeyAction) -> Option<FoldingCommand> {
    if action.fold_all {
        Some(FoldingCommand::FoldAll)
    } else if action.unfold_all {
        Some(FoldingCommand::UnfoldAll)
    } else if action.fold_current {
        Some(FoldingCommand::FoldCurrent)
    } else if action.unfold_current {
        Some(FoldingCommand::UnfoldCurrent)
    } else {
        None
    }
}

/// Applies the folding keys of `action` to `view`. Without a folding key the
/// folded ranges are only cleaned up (valid ones kept, sorted, repeats
/// dropped).
pub fn apply_folding_actions(
    action: &KeyAction,
    view: &mut BufferView,
    foldable_ranges: &[FoldRange],
    line_count: usize,
)
    ensures
        match key_folding_command(*action) {
            Some(c) => folded_after(
                old(view).folded_ranges@,
                foldable_ranges@,
                old(view).cursor.pos.line as int,
                line_count as nat,
                c,
                final(view).folded_ranges@,
            ),
            None => strictly_sorted(final(view).folded_ranges@, false) && forall|x: FoldRange|
                #[trigger] final(view).folded_ranges@.contains(x) <==> (old(view).folded_ranges@.contains(x)
                    && valid_fold(x, line_count as nat)),
        },
        final(view).cursor == old(view).cursor,
        final(view).markdown_mode == old(view).markdown_mode,
{
    let command = if action.fold_all {
        Some(FoldingCommand::FoldAll)
    } else if action.unfold_all {
        Some(FoldingCommand::UnfoldAll)
    } else if action.fold_current {
        Some(FoldingCommand::FoldCurrent)
    } else if action.unfold_current {
        Some(FoldingCommand::UnfoldCurrent)
    } else {
        None
    };
    match command {
        Some(c) => apply_folding_command(view, foldable_ranges, line_count, c),
        None => {
            let normalized = normalize_folds(&view.folded_ranges, line_count);
            view.folded_ranges = normalized;
        },
    }
}

// ---------------------------------------------------------------------------
// Visible lines
// ---------------------------------------------------------------------------

/// The line after `line` that stays visible: past the end of a fold that
/// starts on `line`, else the next line.
pub open spec fn next_visible(folds: Seq<FoldRange>, line: int) -> int {
    match fold_starting_at(folds, line) {
        Some(r) => if r.end_line as int + 1 > usize::MAX {
            usize::MAX as int
        } else {
            r.end_line as int + 1
        },
        None => line + 1,
    }
}

/// Every fold that the walk over visible lines can reach moves forward.
pub open spec fn folds_move_forward(line_count: nat, folds: Seq<FoldRange>) -> bool {
    forall|line: int|
        0 <= line < line_count ==> match #[trigger] fold_starting_at(folds, line) {
            Some(r) => r.end_line >= line,
            None => true,
        }
}

/// Visible document lines from `line` on.
pub open spec fn visible_from(line_count: nat, folds: Seq<FoldRange>, line: int) -> Seq<usize>
    decreases line_count - line,
{
    if line < 0 || line >= line_count {
        Seq::empty()
    } else {
        let next = next_visible(folds, line);
        if next <= line || next >= line_count {
            seq![line as usize]
        } else {
            seq![line as usize] + visible_from(line_count, folds, next)
        }
    }
}

pub open spec fn visible_lines_spec(line_count: nat, folds: Seq<FoldRange>) -> Seq<usize> {
    if line_count == 0 {
        seq![0usize]
    } else {
        visible_from(line_count, folds, 0)
    }
}

/// The document lines left on screen once folded interiors are hidden.
pub fn visible_doc_lines(line_count: usize, folded_ranges: &[FoldRange]) -> (lines: Vec<usize>)
    requires
        folds_move_forward(line_count as nat, folded_ranges@),
    ensures
        lines@ == visible_lines_spec(line_count as nat, folded_ranges@),
{
    let mut lines: Vec<usize> = Vec::new();
    let mut line: usize = 0;
    while line < line_count
        invariant
            folds_move_forward(line_count as nat, folded_ranges@),
            line <= line_count,
            lines@ + visible_from(line_count as nat, folded_ranges@, line as int) == visible_from(
                line_count as nat,
                folded_ranges@,
                0,
            ),
        decreases line_count - line,
    {
        lines.push(line);
        let ghost lines_before = lines@;
        let ghost prev = line as int;
        let f = folded_range_starting_at(folded_ranges, line);
        match f {
            Some(range) => {
                assert(range.end_line >= line);
                line = range.end_line.saturating_add(1);
            },
            None => {
                line += 1;
            },
        }
        proof {
            assert(next_visible(folded_ranges@, prev) == line as int);
            assert(line as int > prev);
            if line >= line_count {
                assert(visible_from(line_count as nat, folded_ranges@, line as int) =~= Seq::<
                    usize,
                >::empty());
                assert(visible_from(line_count as nat, folded_ranges@, prev) == seq![prev as usize]);
                assert(lines@ + visible_from(line_count as nat, folded_ranges@, line as int) =~= lines@);
            }
        }
        if line > line_count {
            line = line_count;
        }
    }
    if lines.len() == 0 {
        lines.push(0);
    }
    proof {
        assert(lines@ =~= visible_lines_spec(line_count as nat, folded_ranges@));
    }
    lines
}

/// Index of the first element of `v`, at or after `i`, that is not below `x`.
pub open spec fn first_not_below(v: Seq<usize>, x: int, i: int) -> int
    decreases v.len() - i,
{
    if i < 0 || i >= v.len() {
        v.len() as int
    } else if v[i] >= x {
        i
    } else {
        first_not_below(v, x, i + 1)
    }
}

/// Where `doc_line` stands among the visible lines: its own index, else the
/// visible line before it (clamped to the list).
pub open spec fn visible_index_spec(v: Seq<usize>, doc_line: int) -> int {
    let k = first_not_below(v, doc_line, 0);
    if k < v.len() && v[k] == doc_line {
        k
    } else {
        let below = if k > 0 {
            k - 1
        } else {
            0
        };
        let last = if v.len() > 0 {
            v.len() - 1
        } else {
            0
        };
        if below < last {
            below
        } else {
            last
        }
    }
}

/// Index of `doc_line` among the visible lines, or of the visible line that
/// hides it. On a strictly increasing list this is what a binary search
/// gives: the match, else the element before the insertion point.
pub fn visible_index_for_doc_line(visible_doc_lines: &[usize], doc_line: usize) -> (idx: usize)
    ensures
        idx as int == visible_index_spec(visible_doc_lines@, doc_line as int),
{
    let mut k: usize = 0;
    while k < visible_doc_lines.len() && visible_doc_lines[k] < doc_line
        invariant
            k <= visible_doc_lines.len(),
            first_not_below(visible_doc_lines@, doc_line as int, 0) == first_not_below(
                visible_doc_lines@,
                doc_line as int,
                k as int,
            ),
        decreases visible_doc_lines.len() - k,
    {
        k += 1;
    }
    if k < visible_doc_lines.len() && visible_doc_lines[k] == doc_line {
        return k;
    }
    let below = if k > 0 {
        k - 1
    } else {
        0
    };
    let last = if visible_doc_lines.len() > 0 {
        visible_doc_lines.len() - 1
    } else {
        0
    };
    if below < last {
        below
    } else {
        last
    }
}

/// Moves a cursor that sits inside a folded range to the fold's first line.
/// `line_lens[i]` is the length of line `i` in characters.
pub fn snap_cursor_to_visible_line(view: &mut BufferView, line_lens: &[usize])
    requires
        old(view).cursor.pos.line <= line_lens@.len(),
    ensures
        ({
            let p = |r: FoldRange|
                r.start_line < old(view).cursor.pos.line && old(view).cursor.pos.line
                    <= r.end_line;
            match first_index(old(view).folded_ranges@, p) {
                Some(i) => {
                    let r = old(view).folded_ranges@[i];
                    &&& final(view).cursor.pos.line == r.start_line
                    &&& final(view).cursor.pos.col == (if old(view).cursor.pos.col
                        < line_lens@[r.start_line as int] {
                        old(view).cursor.pos.col
                    } else {
                        line_lens@[r.start_line as int]
                    })
                    &&& final(view).cursor.anchor is None
                    &&& final(view).cursor.desired_col == old(view).cursor.desired_col
                },
                None => final(view).cursor == old(view).cursor,
            }
        }),
        final(view).folded_ranges == old(view).folded_ranges,
        final(view).markdown_mode == old(view).markdown_mode,
{
    let ghost p = |r: FoldRange|
        r.start_line < view.cursor.pos.line && view.cursor.pos.line <= r.end_line;
    let mut i: usize = 0;
    while i < view.folded_ranges.len()
        invariant
            i <= view.folded_ranges.len(),
            *view == *old(view),
            view.cursor.pos.line <= line_lens@.len(),
            p == (|r: FoldRange|
                r.start_line < old(view).cursor.pos.line && old(view).cursor.pos.line
                    <= r.end_line),
            forall|j: int| 0 <= j < i ==> !p(#[trigger] view.folded_ranges@[j]),
        decreases view.folded_ranges.len() - i,
    {
        let range = view.folded_ranges[i];
        if view.cursor.pos.line > range.start_line && view.cursor.pos.line <= range.end_line {
            proof {
                lemma_first_index(view.folded_ranges@, p, i as int);
            }
            let len = line_lens[range.start_line];
            view.cursor.pos.line = range.start_line;
            if len < view.cursor.pos.col {
                view.cursor.pos.col = len;
            }
            view.cursor.clear_selection();
            return;
        }
        i += 1;
    }
}

// ---------------------------------------------------------------------------
// Laws
// ---------------------------------------------------------------------------

pub open spec fn strictly_increasing(s: Seq<usize>) -> bool {
    forall|i: int, j: int| 0 <= i < j < s.len() ==> #[trigger] s[i] < #[trigger] s[j]
}

proof fn lemma_visible_from(line_count: nat, folds: Seq<FoldRange>, line: int)
    requires
        0 <= line,
        line_count <= usize::MAX,
    ensures
        strictly_increasing(visible_from(line_count, folds, line)),
        forall|k: int|
            0 <= k < visible_from(line_count, folds, line).len() ==> line <= #[trigger] visible_from(
                line_count,
                folds,
                line,
            )[k] < line_count,
        line < line_count ==> visible_from(line_count, folds, line).len() > 0 && visible_from(
            line_count,
            folds,
            line,
        )[0] == line,
    decreases line_count - line,
{
    if line < line_count {
        let next = next_visible(folds, line);
        if !(next <= line || next >= line_count) {
            lemma_visible_from(line_count, folds, next);
            let rest = visible_from(line_count, folds, next);
            let s = visible_from(line_count, folds, line);
            assert(s == seq![line as usize] + rest);
            assert forall|k: int| 0 <= k < s.len() implies line <= #[trigger] s[k] < line_count by {
                if k > 0 {
                    assert(s[k] == rest[k - 1]);
                }
            }
            assert forall|i: int, j: int| 0 <= i < j < s.len() implies #[trigger] s[i] < #[trigger] s[j] by {
                if i > 0 {
                    assert(s[i] == rest[i - 1]);
                }
                assert(s[j] == rest[j - 1]);
            }
        }
    }
}

/// The visible lines go strictly upward from line 0 and stay inside the
/// document; an empty document shows its line 0.
pub proof fn law_visible_doc_lines_ordered(line_count: usize, folds: Seq<FoldRange>)
    ensures
        strictly_increasing(visible_lines_spec(line_count as nat, folds)),
        visible_lines_spec(line_count as nat, folds).len() > 0,
        visible_lines_spec(line_count as nat, folds)[0] == 0,
        line_count > 0 ==> forall|k: int|
            0 <= k < visible_lines_spec(line_count as nat, folds).len() ==> #[trigger] visible_lines_spec(
                line_count as nat,
                folds,
            )[k] < line_count,
{
    if line_count > 0 {
        lemma_visible_from(line_count as nat, folds, 0);
    }
}

proof fn lemma_first_not_below_hit(v: Seq<usize>, i: int, j: int)
    requires
        strictly_increasing(v),
        0 <= j <= i < v.len(),
    ensures
        first_not_below(v, v[i] as int, j) == i,
    decreases i - j,
{
    if j < i {
        assert(v[j] < v[i]);
        lemma_first_not_below_hit(v, i, j + 1);
    }
}

/// On a strictly increasing list of visible lines, looking up the visible
/// line at index `i` gives back `i`.
pub proof fn law_visible_index_roundtrip(visible: Seq<usize>, i: int)
    requires
        strictly_increasing(visible),
        0 <= i < visible.len(),
    ensures
        visible_index_spec(visible, visible[i] as int) == i,
{
    lemma_first_not_below_hit(visible, i, 0);
}

proof fn lemma_visible_from_step(line_count: nat, folds: Seq<FoldRange>, line: int, k: int)
    requires
        0 <= line,
        line_count <= usize::MAX,
        0 <= k < visible_from(line_count, folds, line).len() - 1,
    ensures
        visible_from(line_count, folds, line)[k + 1] as int == next_visible(
            folds,
            visible_from(line_count, folds, line)[k] as int,
        ),
    decreases line_count - line,
{
    let next = next_visible(folds, line);
    let rest = visible_from(line_count, folds, next);
    lemma_visible_from(line_count, folds, next);
    if k == 0 {
        assert(visible_from(line_count, folds, line)[1] == rest[0]);
    } else {
        lemma_visible_from_step(line_count, folds, next, k - 1);
        assert(visible_from(line_count, folds, line)[k + 1] == rest[k]);
        assert(visible_from(line_count, folds, line)[k] == rest[k - 1]);
    }
}

/// After each visible line comes the line after it, or, when a folded range
/// starts there, the line after that range's end: folded interiors never
/// show.
pub proof fn law_visible_lines_skip_folded_interiors(line_count: usize, folds: Seq<FoldRange>, k: int)
    requires
        line_count > 0,
        0 <= k < visible_lines_spec(line_count as nat, folds).len() - 1,
    ensures
        ({
            let v = visible_lines_spec(line_count as nat, folds);
            v[k + 1] as int == match fold_starting_at(folds, v[k] as int) {
                Some(r) => r.end_line + 1,
                None => v[k] + 1,
            }
        }),
{
    lemma_visible_from_step(line_count as nat, folds, 0, k);
    lemma_visible_from(line_count as nat, folds, 0);
}

/// Folding a range that is not folded and then toggling it again leaves the
/// same folded set, and the reverse.
pub proof fn law_toggle_fold_range_twice(folded: Seq<FoldRange>, range: FoldRange)
    requires
        range.start_line < range.end_line,
        !folded.contains(range),
    ensures
        ({
            let once = folded.push(range);
            &&& once.contains(range)
            &&& remove_first(once, |r: FoldRange| r == range) == folded
        }),
{
    let once = folded.push(range);
    let p = |r: FoldRange| r == range;
    assert(once[folded.len() as int] == range);
    assert forall|j: int| 0 <= j < folded.len() implies !p(#[trigger] once[j]) by {
        assert(once[j] == folded[j]);
    }
    lemma_first_index(once, p, folded.len() as int);
    assert(once.remove(folded.len() as int) =~= folded);
}

} // verus!
