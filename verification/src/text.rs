//! Character-level text helpers shared by the parsers and the editor logic.
//!
//! Text is handled as sequences of Unicode scalar values (`Seq<char>`), which
//! is what the view of a `str` or `String` is.
use vstd::prelude::*;

verus! {

/// Unicode `White_Space` property, as used by `char::is_whitespace`.
pub open spec fn is_ws(c: char) -> bool {
    ||| ('\u{9}' <= c && c <= '\u{d}')
    ||| c == ' '
    ||| c == '\u{85}'
    ||| c == '\u{a0}'
    ||| c == '\u{1680}'
    ||| ('\u{2000}' <= c && c <= '\u{200a}')
    ||| c == '\u{2028}'
    ||| c == '\u{2029}'
    ||| c == '\u{202f}'
    ||| c == '\u{205f}'
    ||| c == '\u{3000}'
}

pub fn is_whitespace(c: char) -> (b: bool)
    ensures
        b == is_ws(c),
{
    ('\u{9}' <= c && c <= '\u{d}') || c == ' ' || c == '\u{85}' || c == '\u{a0}' || c
        == '\u{1680}' || ('\u{2000}' <= c && c <= '\u{200a}') || c == '\u{2028}' || c
        == '\u{2029}' || c == '\u{202f}' || c == '\u{205f}' || c == '\u{3000}'
}

/// Number of leading whitespace characters.
pub open spec fn ws_prefix_len(s: Seq<char>) -> nat
    decreases s.len(),
{
    if s.len() > 0 && is_ws(s[0]) {
        1 + ws_prefix_len(s.drop_first())
    } else {
        0
    }
}

/// Number of trailing whitespace characters.
pub open spec fn ws_suffix_len(s: Seq<char>) -> nat
    decreases s.len(),
{
    if s.len() > 0 && is_ws(s.last()) {
        1 + ws_suffix_len(s.drop_last())
    } else {
        0
    }
}

pub open spec fn trim_start(s: Seq<char>) -> Seq<char> {
    s.skip(ws_prefix_len(s) as int)
}

pub open spec fn trim_end(s: Seq<char>) -> Seq<char> {
    s.take(s.len() - ws_suffix_len(s))
}

/// `str::trim`: both ends stripped of whitespace.
pub open spec fn trim(s: Seq<char>) -> Seq<char> {
    trim_end(trim_start(s))
}

pub open spec fn starts_with(s: Seq<char>, p: Seq<char>) -> bool {
    p.len() <= s.len() && s.take(p.len() as int) == p
}

pub open spec fn ends_with(s: Seq<char>, p: Seq<char>) -> bool {
    p.len() <= s.len() && s.skip(s.len() - p.len()) == p
}

pub open spec fn matches_at(s: Seq<char>, i: int, p: Seq<char>) -> bool {
    0 <= i && i + p.len() <= s.len() && s.subrange(i, i + p.len()) == p
}

/// Position of the first occurrence of `p` in `s` at or after `i`.
pub open spec fn find_from(s: Seq<char>, p: Seq<char>, i: int) -> Option<int>
    decreases s.len() + 1 - i,
{
    if i < 0 || i + p.len() > s.len() {
        None
    } else if matches_at(s, i, p) {
        Some(i)
    } else {
        find_from(s, p, i + 1)
    }
}

/// `str::find` with a string pattern, in characters.
pub open spec fn find(s: Seq<char>, p: Seq<char>) -> Option<int> {
    find_from(s, p, 0)
}

pub open spec fn contains_seq(s: Seq<char>, p: Seq<char>) -> bool {
    find(s, p) is Some
}

pub open spec fn ascii_lower(c: char) -> char {
    if 'A' <= c && c <= 'Z' {
        ((c as u32) + 32) as char
    } else {
        c
    }
}

pub open spec fn ascii_lower_seq(s: Seq<char>) -> Seq<char> {
    s.map_values(|c: char| ascii_lower(c))
}

/// Every character is ASCII.
pub open spec fn is_ascii_seq(s: Seq<char>) -> bool {
    forall|i: int| 0 <= i < s.len() ==> (#[trigger] s[i] as u32) < 128
}

pub proof fn lemma_ws_prefix_bounds(s: Seq<char>)
    ensures
        ws_prefix_len(s) <= s.len(),
        forall|j: int| 0 <= j < ws_prefix_len(s) ==> is_ws(#[trigger] s[j]),
        ws_prefix_len(s) < s.len() ==> !is_ws(s[ws_prefix_len(s) as int]),
    decreases s.len(),
{
    if s.len() > 0 && is_ws(s[0]) {
        lemma_ws_prefix_bounds(s.drop_first());
        assert forall|j: int| 0 <= j < ws_prefix_len(s) implies is_ws(#[trigger] s[j]) by {
            if j > 0 {
                assert(s[j] == s.drop_first()[j - 1]);
            }
        }
    }
}

pub proof fn lemma_ws_suffix_bounds(s: Seq<char>)
    ensures
        ws_suffix_len(s) <= s.len(),
        forall|j: int| s.len() - ws_suffix_len(s) <= j < s.len() ==> is_ws(#[trigger] s[j]),
        ws_suffix_len(s) < s.len() ==> !is_ws(s[s.len() - ws_suffix_len(s) - 1]),
    decreases s.len(),
{
    if s.len() > 0 && is_ws(s.last()) {
        lemma_ws_suffix_bounds(s.drop_last());
        assert forall|j: int| s.len() - ws_suffix_len(s) <= j < s.len() implies is_ws(
            #[trigger] s[j],
        ) by {
            if j < s.len() - 1 {
                assert(s[j] == s.drop_last()[j]);
            }
        }
    }
}

/// A prefix made of whitespace followed by a non-whitespace character (or the
/// end) has exactly the length `ws_prefix_len`.
pub proof fn lemma_ws_prefix_unique(s: Seq<char>, k: int)
    requires
        0 <= k <= s.len(),
        forall|j: int| 0 <= j < k ==> is_ws(#[trigger] s[j]),
        k < s.len() ==> !is_ws(s[k]),
    ensures
        ws_prefix_len(s) == k,
    decreases s.len(),
{
    if k > 0 {
        assert(is_ws(s[0]));
        assert forall|j: int| 0 <= j < k - 1 implies is_ws(#[trigger] s.drop_first()[j]) by {
            assert(s.drop_first()[j] == s[j + 1]);
        }
        if k - 1 < s.drop_first().len() {
            assert(s.drop_first()[k - 1] == s[k]);
        }
        lemma_ws_prefix_unique(s.drop_first(), k - 1);
    }
}

pub proof fn lemma_ws_suffix_unique(s: Seq<char>, k: int)
    requires
        0 <= k <= s.len(),
        forall|j: int| s.len() - k <= j < s.len() ==> is_ws(#[trigger] s[j]),
        k < s.len() ==> !is_ws(s[s.len() - k - 1]),
    ensures
        ws_suffix_len(s) == k,
    decreases s.len(),
{
    if k > 0 {
        assert(is_ws(s[s.len() - 1]));
        assert forall|j: int| s.drop_last().len() - (k - 1) <= j < s.drop_last().len() implies is_ws(
            #[trigger] s.drop_last()[j],
        ) by {
            assert(s.drop_last()[j] == s[j]);
        }
        if k - 1 < s.drop_last().len() {
            assert(s.drop_last()[s.drop_last().len() - (k - 1) - 1] == s[s.len() - k - 1]);
        }
        lemma_ws_suffix_unique(s.drop_last(), k - 1);
    }
}

/// The characters of a string slice.
pub fn chars_of(s: &str) -> (v: Vec<char>)
    ensures
        v@ == s@,
{
    let mut v: Vec<char> = Vec::new();
    for c in it: s.chars()
        invariant
            v@ == it.seq().take(it.index() as int),
    {
        v.push(c);
    }
    v
}

/// Appends one character to a `String` (`String::push`).
#[verifier::external_body]
pub(crate) fn push_char(s: &mut String, c: char)
    ensures
        final(s)@ == old(s)@.push(c),
{
    s.push(c);
}

/// Builds a `String` from characters.
pub fn string_of(v: &[char]) -> (s: String)
    ensures
        s@ == v@,
{
    let mut s = String::new();
    let mut i: usize = 0;
    while i < v.len()
        invariant
            i <= v.len(),
            s@ == v@.take(i as int),
        decreases v.len() - i,
    {
        push_char(&mut s, v[i]);
        assert(v@.take(i as int).push(v@[i as int]) == v@.take(i + 1));
        i += 1;
    }
    assert(v@.take(v.len() as int) == v@);
    s
}

/// Copies `v[from..to]`.
pub fn slice_chars(v: &[char], from: usize, to: usize) -> (r: Vec<char>)
    requires
        from <= to <= v.len(),
    ensures
        r@ == v@.subrange(from as int, to as int),
{
    let mut r: Vec<char> = Vec::new();
    let mut i: usize = from;
    while i < to
        invariant
            from <= i <= to <= v.len(),
            r@ == v@.subrange(from as int, i as int),
        decreases to - i,
    {
        r.push(v[i]);
        assert(v@.subrange(from as int, i as int).push(v@[i as int]) == v@.subrange(
            from as int,
            i + 1,
        ));
        i += 1;
    }
    r
}

/// Appends `src` to `dst`.
pub fn extend_chars(dst: &mut Vec<char>, src: &[char])
    ensures
        final(dst)@ == old(dst)@ + src@,
{
    let mut i: usize = 0;
    while i < src.len()
        invariant
            i <= src.len(),
            dst@ == old(dst)@ + src@.take(i as int),
        decreases src.len() - i,
    {
        dst.push(src[i]);
        assert(old(dst)@ + src@.take(i + 1) == (old(dst)@ + src@.take(i as int)).push(
            src@[i as int],
        ));
        i += 1;
    }
    assert(src@.take(src.len() as int) == src@);
}

/// Number of leading whitespace characters (`str::trim_start`).
pub fn ws_prefix(v: &[char]) -> (n: usize)
    ensures
        n == ws_prefix_len(v@),
{
    let mut i: usize = 0;
    while i < v.len() && is_whitespace(v[i])
        invariant
            i <= v.len(),
            forall|j: int| 0 <= j < i ==> is_ws(#[trigger] v@[j]),
        decreases v.len() - i,
    {
        i += 1;
    }
    proof {
        lemma_ws_prefix_unique(v@, i as int);
    }
    i
}

/// Number of trailing whitespace characters (`str::trim_end`).
pub fn ws_suffix(v: &[char]) -> (n: usize)
    ensures
        n == ws_suffix_len(v@),
{
    let mut k: usize = 0;
    while k < v.len() && is_whitespace(v[v.len() - 1 - k])
        invariant
            k <= v.len(),
            forall|j: int| v.len() - k <= j < v.len() ==> is_ws(#[trigger] v@[j]),
        decreases v.len() - k,
    {
        k += 1;
    }
    proof {
        lemma_ws_suffix_unique(v@, k as int);
    }
    k
}

/// `str::trim`.
pub fn trim_chars(v: &[char]) -> (r: Vec<char>)
    ensures
        r@ == trim(v@),
{
    let a = ws_prefix(v);
    proof {
        lemma_ws_prefix_bounds(v@);
    }
    let rest = slice_chars(v, a, v.len());
    let b = ws_suffix(rest.as_slice());
    proof {
        lemma_ws_suffix_bounds(rest@);
    }
    slice_chars(rest.as_slice(), 0, rest.len() - b)
}

/// `str::trim_start`.
pub fn trim_start_chars(v: &[char]) -> (r: Vec<char>)
    ensures
        r@ == trim_start(v@),
{
    let a = ws_prefix(v);
    proof {
        lemma_ws_prefix_bounds(v@);
    }
    slice_chars(v, a, v.len())
}

/// `str::trim_end`.
pub fn trim_end_chars(v: &[char]) -> (r: Vec<char>)
    ensures
        r@ == trim_end(v@),
{
    let b = ws_suffix(v);
    proof {
        lemma_ws_suffix_bounds(v@);
    }
    slice_chars(v, 0, v.len() - b)
}

pub fn matches_at_exec(s: &[char], i: usize, p: &[char]) -> (b: bool)
    ensures
        b == matches_at(s@, i as int, p@),
{
    if i > s.len() || p.len() > s.len() - i {
        return false;
    }
    let mut k: usize = 0;
    while k < p.len()
        invariant
            k <= p.len(),
            i + p.len() <= s.len(),
            forall|j: int| 0 <= j < k ==> s@[i + j] == p@[j],
        decreases p.len() - k,
    {
        if s[i + k] != p[k] {
            assert(s@.subrange(i as int, i + p.len())[k as int] != p@[k as int]);
            return false;
        }
        k += 1;
    }
    assert(s@.subrange(i as int, i + p.len()) =~= p@);
    true
}

pub fn starts_with_exec(s: &[char], p: &[char]) -> (b: bool)
    ensures
        b == starts_with(s@, p@),
{
    let b = matches_at_exec(s, 0, p);
    proof {
        if p@.len() <= s@.len() {
            assert(s@.subrange(0, p@.len() as int) == s@.take(p@.len() as int));
        }
    }
    b
}

/// `str::find` with a string pattern, in characters.
pub fn find_exec(s: &[char], p: &[char]) -> (r: Option<usize>)
    ensures
        match r {
            Some(i) => find(s@, p@) == Some(i as int),
            None => find(s@, p@) is None,
        },
{
    if p.len() > s.len() {
        return None;
    }
    let lim = s.len() - p.len();
    let mut i: usize = 0;
    loop
        invariant
            p.len() <= s.len(),
            lim == s.len() - p.len(),
            i <= lim,
            find(s@, p@) == find_from(s@, p@, i as int),
        decreases lim - i,
    {
        if matches_at_exec(s, i, p) {
            return Some(i);
        }
        if i == lim {
            assert(find_from(s@, p@, i + 1) is None);
            return None;
        }
        i += 1;
    }
}

pub proof fn lemma_find_from_props(s: Seq<char>, p: Seq<char>, i: int)
    requires
        0 <= i,
    ensures
        match find_from(s, p, i) {
            Some(k) => i <= k && matches_at(s, k, p) && forall|j: int|
                i <= j < k ==> !matches_at(s, j, p),
            None => forall|j: int| i <= j ==> !matches_at(s, j, p),
        },
    decreases s.len() + 1 - i,
{
    if i < 0 || i + p.len() > s.len() {
    } else if matches_at(s, i, p) {
    } else {
        lemma_find_from_props(s, p, i + 1);
    }
}

pub fn ascii_lower_char(c: char) -> (r: char)
    ensures
        r == ascii_lower(c),
{
    if 'A' <= c && c <= 'Z' {
        let b: u8 = c as u8;
        let r = (b + 32) as char;
        r
    } else {
        c
    }
}

/// `str::to_ascii_lowercase`.
pub fn ascii_lowercase(v: &[char]) -> (r: Vec<char>)
    ensures
        r@ == ascii_lower_seq(v@),
{
    let mut r: Vec<char> = Vec::new();
    let mut i: usize = 0;
    while i < v.len()
        invariant
            i <= v.len(),
            r@ == ascii_lower_seq(v@.take(i as int)),
        decreases v.len() - i,
    {
        let c = ascii_lower_char(v[i]);
        r.push(c);
        assert(ascii_lower_seq(v@.take(i + 1)) =~= ascii_lower_seq(v@.take(i as int)).push(c));
        i += 1;
    }
    assert(v@.take(v.len() as int) == v@);
    r
}

pub fn chars_eq(a: &[char], b: &[char]) -> (r: bool)
    ensures
        r == (a@ == b@),
{
    if a.len() != b.len() {
        return false;
    }
    let r = matches_at_exec(a, 0, b);
    proof {
        if r {
            assert(a@.subrange(0, b@.len() as int) =~= a@);
        } else if a@ == b@ {
            assert(a@.subrange(0, b@.len() as int) =~= a@);
        }
    }
    r
}

/// Classes of characters that leading or trailing runs are made of.
#[derive(Clone, Copy, Debug, PartialEq, Eq, Structural)]
pub enum CharClass {
    /// One given character.
    Is(char),
    /// Unicode whitespace.
    Ws,
    /// Anything but Unicode whitespace.
    NonWs,
    /// A space or a tab.
    Indent,
}

pub open spec fn in_class(c: char, k: CharClass) -> bool {
    match k {
        CharClass::Is(x) => c == x,
        CharClass::Ws => is_ws(c),
        CharClass::NonWs => !is_ws(c),
        CharClass::Indent => c == ' ' || c == '\t',
    }
}

pub fn in_class_exec(c: char, k: CharClass) -> (b: bool)
    ensures
        b == in_class(c, k),
{
    match k {
        CharClass::Is(x) => c == x,
        CharClass::Ws => is_whitespace(c),
        CharClass::NonWs => !is_whitespace(c),
        CharClass::Indent => c == ' ' || c == '\t',
    }
}

/// Length of the longest prefix of `s` made of characters of class `k`.
pub open spec fn lead(s: Seq<char>, k: CharClass) -> nat
    decreases s.len(),
{
    if s.len() > 0 && in_class(s[0], k) {
        1 + lead(s.drop_first(), k)
    } else {
        0
    }
}

/// Length of the longest suffix of `s` made of characters of class `k`.
pub open spec fn trail(s: Seq<char>, k: CharClass) -> nat
    decreases s.len(),
{
    if s.len() > 0 && in_class(s.last(), k) {
        1 + trail(s.drop_last(), k)
    } else {
        0
    }
}

/// `str::trim_start_matches(c)` and friends: drop the leading run.
pub open spec fn strip_lead(s: Seq<char>, k: CharClass) -> Seq<char> {
    s.skip(lead(s, k) as int)
}

/// `str::trim_end_matches(c)` and friends: drop the trailing run.
pub open spec fn strip_trail(s: Seq<char>, k: CharClass) -> Seq<char> {
    s.take(s.len() - trail(s, k))
}

pub proof fn lemma_lead_bounds(s: Seq<char>, k: CharClass)
    ensures
        lead(s, k) <= s.len(),
        forall|j: int| 0 <= j < lead(s, k) ==> in_class(#[trigger] s[j], k),
        lead(s, k) < s.len() ==> !in_class(s[lead(s, k) as int], k),
    decreases s.len(),
{
    if s.len() > 0 && in_class(s[0], k) {
        lemma_lead_bounds(s.drop_first(), k);
        assert forall|j: int| 0 <= j < lead(s, k) implies in_class(#[trigger] s[j], k) by {
            if j > 0 {
                assert(s[j] == s.drop_first()[j - 1]);
            }
        }
    }
}

pub proof fn lemma_lead_unique(s: Seq<char>, k: CharClass, n: int)
    requires
        0 <= n <= s.len(),
        forall|j: int| 0 <= j < n ==> in_class(#[trigger] s[j], k),
        n < s.len() ==> !in_class(s[n], k),
    ensures
        lead(s, k) == n,
    decreases s.len(),
{
    if n > 0 {
        assert(in_class(s[0], k));
        assert forall|j: int| 0 <= j < n - 1 implies in_class(#[trigger] s.drop_first()[j], k) by {
            assert(s.drop_first()[j] == s[j + 1]);
        }
        if n - 1 < s.drop_first().len() {
            assert(s.drop_first()[n - 1] == s[n]);
        }
        lemma_lead_unique(s.drop_first(), k, n - 1);
    }
}

pub proof fn lemma_trail_bounds(s: Seq<char>, k: CharClass)
    ensures
        trail(s, k) <= s.len(),
        forall|j: int| s.len() - trail(s, k) <= j < s.len() ==> in_class(#[trigger] s[j], k),
        trail(s, k) < s.len() ==> !in_class(s[s.len() - trail(s, k) - 1], k),
    decreases s.len(),
{
    if s.len() > 0 && in_class(s.last(), k) {
        lemma_trail_bounds(s.drop_last(), k);
        assert forall|j: int| s.len() - trail(s, k) <= j < s.len() implies in_class(
            #[trigger] s[j],
            k,
        ) by {
            if j < s.len() - 1 {
                assert(s[j] == s.drop_last()[j]);
            }
        }
    }
}

pub proof fn lemma_trail_unique(s: Seq<char>, k: CharClass, n: int)
    requires
        0 <= n <= s.len(),
        forall|j: int| s.len() - n <= j < s.len() ==> in_class(#[trigger] s[j], k),
        n < s.len() ==> !in_class(s[s.len() - n - 1], k),
    ensures
        trail(s, k) == n,
    decreases s.len(),
{
    if n > 0 {
        assert(in_class(s[s.len() - 1], k));
        assert forall|j: int| s.drop_last().len() - (n - 1) <= j < s.drop_last().len() implies in_class(
            #[trigger] s.drop_last()[j],
            k,
        ) by {
            assert(s.drop_last()[j] == s[j]);
        }
        if n - 1 < s.drop_last().len() {
            assert(s.drop_last()[s.drop_last().len() - (n - 1) - 1] == s[s.len() - n - 1]);
        }
        lemma_trail_unique(s.drop_last(), k, n - 1);
    }
}

/// Length of the leading run of class `k`.
pub fn lead_exec(v: &[char], k: CharClass) -> (n: usize)
    ensures
        n == lead(v@, k),
        n <= v@.len(),
{
    let mut i: usize = 0;
    while i < v.len() && in_class_exec(v[i], k)
        invariant
            i <= v.len(),
            forall|j: int| 0 <= j < i ==> in_class(#[trigger] v@[j], k),
        decreases v.len() - i,
    {
        i += 1;
    }
    proof {
        lemma_lead_unique(v@, k, i as int);
    }
    i
}

/// Length of the trailing run of class `k`.
pub fn trail_exec(v: &[char], k: CharClass) -> (n: usize)
    ensures
        n == trail(v@, k),
        n <= v@.len(),
{
    let mut n: usize = 0;
    while n < v.len() && in_class_exec(v[v.len() - 1 - n], k)
        invariant
            n <= v.len(),
            forall|j: int| v.len() - n <= j < v.len() ==> in_class(#[trigger] v@[j], k),
        decreases v.len() - n,
    {
        n += 1;
    }
    proof {
        lemma_trail_unique(v@, k, n as int);
    }
    n
}

pub fn strip_lead_exec(v: &[char], k: CharClass) -> (r: Vec<char>)
    ensures
        r@ == strip_lead(v@, k),
{
    let n = lead_exec(v, k);
    slice_chars(v, n, v.len())
}

pub fn strip_trail_exec(v: &[char], k: CharClass) -> (r: Vec<char>)
    ensures
        r@ == strip_trail(v@, k),
{
    let n = trail_exec(v, k);
    slice_chars(v, 0, v.len() - n)
}

/// `find` with a one-character pattern is the first index of that character.
pub proof fn lemma_find_first(s: Seq<char>, p: Seq<char>, i: int, k: int)
    requires
        0 <= i <= k,
        matches_at(s, k, p),
        forall|j: int| i <= j < k ==> !matches_at(s, j, p),
    ensures
        find_from(s, p, i) == Some(k),
    decreases k - i,
{
    if i < k {
        lemma_find_first(s, p, i + 1, k);
    }
}

pub proof fn lemma_find_none(s: Seq<char>, p: Seq<char>, i: int)
    requires
        0 <= i,
        forall|j: int| i <= j ==> !matches_at(s, j, p),
    ensures
        find_from(s, p, i) is None,
    decreases s.len() + 1 - i,
{
    if !(i < 0 || i + p.len() > s.len()) {
        lemma_find_none(s, p, i + 1);
    }
}

pub proof fn lemma_matches_char(s: Seq<char>, j: int, c: char)
    ensures
        matches_at(s, j, seq![c]) <==> (0 <= j < s.len() && s[j] == c),
{
    if 0 <= j < s.len() {
        if s[j] == c {
            assert(s.subrange(j, j + 1) =~= seq![c]);
        } else {
            assert(s.subrange(j, j + 1)[0] != seq![c][0]);
        }
    }
}

/// First index of `c` in `v` at or after `from`, as a position in
/// `v[from..]` for `find`.
pub fn find_char_from(v: &[char], c: char, from: usize) -> (r: Option<usize>)
    requires
        from <= v.len(),
    ensures
        match r {
            Some(j) => from <= j < v.len() && find(v@.skip(from as int), seq![c]) == Some(
                j - from,
            ) && v@[j as int] == c,
            None => find(v@.skip(from as int), seq![c]) is None,
        },
{
    let ghost s = v@.skip(from as int);
    let mut j: usize = from;
    while j < v.len()
        invariant
            from <= j <= v.len(),
            s == v@.skip(from as int),
            forall|t: int| from <= t < j ==> v@[t] != c,
        decreases v.len() - j,
    {
        if v[j] == c {
            proof {
                assert forall|t: int| 0 <= t < j - from implies !matches_at(s, t, seq![c]) by {
                    lemma_matches_char(s, t, c);
                    assert(s[t] == v@[from + t]);
                }
                lemma_matches_char(s, j - from, c);
                lemma_find_first(s, seq![c], 0, j - from);
            }
            return Some(j);
        }
        j += 1;
    }
    proof {
        assert forall|t: int| 0 <= t implies !matches_at(s, t, seq![c]) by {
            lemma_matches_char(s, t, c);
            if 0 <= t < s.len() {
                assert(s[t] == v@[from + t]);
            }
        }
        lemma_find_none(s, seq![c], 0);
    }
    None
}

pub proof fn lemma_matches_skip(s: Seq<char>, from: int, t: int, p: Seq<char>)
    requires
        0 <= from <= s.len(),
        0 <= t,
    ensures
        matches_at(s.skip(from), t, p) <==> matches_at(s, from + t, p),
{
    if t + p.len() <= s.len() - from {
        assert(s.skip(from).subrange(t, t + p.len()) =~= s.subrange(from + t, from + t + p.len()));
    }
}

/// First occurrence of `p` in `v` at or after `from`, as an index into `v`;
/// as a position in `v[from..]` it is what `find` gives.
pub fn find_seq_from(v: &[char], p: &[char], from: usize) -> (r: Option<usize>)
    requires
        from <= v.len(),
    ensures
        match r {
            Some(j) => from <= j && j + p@.len() <= v.len() && find(v@.skip(from as int), p@)
                == Some(j - from) && matches_at(v@, j as int, p@),
            None => find(v@.skip(from as int), p@) is None,
        },
{
    let ghost s = v@.skip(from as int);
    if p.len() > v.len() - from {
        proof {
            assert forall|t: int| 0 <= t implies !matches_at(s, t, p@) by {}
            lemma_find_none(s, p@, 0);
        }
        return None;
    }
    let lim = v.len() - p.len();
    let mut j: usize = from;
    loop
        invariant
            from <= j <= lim,
            lim + p.len() == v.len(),
            s == v@.skip(from as int),
            forall|t: int| from <= t < j ==> !matches_at(v@, t, p@),
        decreases lim - j,
    {
        if matches_at_exec(v, j, p) {
            proof {
                assert forall|t: int| 0 <= t < j - from implies !matches_at(s, t, p@) by {
                    lemma_matches_skip(v@, from as int, t, p@);
                }
                lemma_matches_skip(v@, from as int, j - from, p@);
                lemma_find_first(s, p@, 0, j - from);
            }
            return Some(j);
        }
        if j == lim {
            proof {
                assert forall|t: int| 0 <= t implies !matches_at(s, t, p@) by {
                    lemma_matches_skip(v@, from as int, t, p@);
                }
                lemma_find_none(s, p@, 0);
            }
            return None;
        }
        j += 1;
    }
}


/// Appends the characters of `s` to `dst`.
pub fn push_str_chars(dst: &mut Vec<char>, s: &str)
    ensures
        final(dst)@ == old(dst)@ + s@,
{
    let v = chars_of(s);
    extend_chars(dst, v.as_slice());
}

/// The decimal digit for `d`, which is below ten.
pub open spec fn digit_char(d: nat) -> char {
    if d == 0 {
        '0'
    } else if d == 1 {
        '1'
    } else if d == 2 {
        '2'
    } else if d == 3 {
        '3'
    } else if d == 4 {
        '4'
    } else if d == 5 {
        '5'
    } else if d == 6 {
        '6'
    } else if d == 7 {
        '7'
    } else if d == 8 {
        '8'
    } else {
        '9'
    }
}

/// The decimal representation of `n`, without leading zeros.
pub open spec fn decimal(n: nat) -> Seq<char>
    decreases n,
{
    if n < 10 {
        seq![digit_char(n)]
    } else {
        decimal(n / 10).push(digit_char(n % 10))
    }
}

fn digit_exec(d: usize) -> (c: char)
    requires
        d < 10,
    ensures
        c == digit_char(d as nat),
{
    if d == 0 {
        '0'
    } else if d == 1 {
        '1'
    } else if d == 2 {
        '2'
    } else if d == 3 {
        '3'
    } else if d == 4 {
        '4'
    } else if d == 5 {
        '5'
    } else if d == 6 {
        '6'
    } else if d == 7 {
        '7'
    } else if d == 8 {
        '8'
    } else {
        '9'
    }
}

/// Appends the decimal representation of `n` to `dst`.
pub fn push_decimal(dst: &mut Vec<char>, n: usize)
    ensures
        final(dst)@ == old(dst)@ + decimal(n as nat),
    decreases n,
{
    if n < 10 {
        dst.push(digit_exec(n));
        assert(old(dst)@ + decimal(n as nat) =~= old(dst)@.push(digit_char(n as nat)));
    } else {
        push_decimal(dst, n / 10);
        let ghost mid = dst@;
        dst.push(digit_exec(n % 10));
        assert(old(dst)@ + decimal(n as nat) =~= (old(dst)@ + decimal((n / 10) as nat)).push(
            digit_char((n % 10) as nat),
        ));
    }
}

} // verus!
