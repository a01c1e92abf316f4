//! How answers from the language server reach the editor: only while they
//! still concern the buffer that asked, and as popups or status messages.
use vstd::prelude::*;

use crate::editor::{BufferId, Position};
use crate::text::{decimal, push_decimal, push_str_chars, string_of};
use crate::workbench::{CompletionItem, CompletionState};

verus! {

/// What reading a pending request's channel gave.
pub enum PendingPoll<T> {
    Ready(T),
    Closed,
    Empty,
}

/// What becomes of a pending request after one poll.
pub enum PendingRequestPoll<T> {
    /// The answer came; apply it for the buffer.
    Ready(BufferId, T),
    /// The server dropped the request.
    Closed(BufferId),
    /// Still waiting; keep the request.
    Pending(BufferId),
    /// Still waiting, but nobody needs the answer any more.
    Dropped,
}

/// What one poll of the request for `buffer_id` leads to; `keep_pending`
/// says whether a request that is still waiting is worth keeping.
pub fn decide_pending_request<T>(buffer_id: BufferId, poll: PendingPoll<T>, keep_pending: bool) -> (r:
    PendingRequestPoll<T>)
    ensures
        match poll {
            PendingPoll::Ready(v) => r == PendingRequestPoll::Ready(buffer_id, v),
            PendingPoll::Closed => r == PendingRequestPoll::<T>::Closed(buffer_id),
            PendingPoll::Empty => if keep_pending {
                r == PendingRequestPoll::<T>::Pending(buffer_id)
            } else {
                r == PendingRequestPoll::<T>::Dropped
            },
        },
{
    match poll {
        PendingPoll::Ready(v) => PendingRequestPoll::Ready(buffer_id, v),
        PendingPoll::Closed => PendingRequestPoll::Closed(buffer_id),
        PendingPoll::Empty => if keep_pending {
            PendingRequestPoll::Pending(buffer_id)
        } else {
            PendingRequestPoll::Dropped
        },
    }
}

/// An answer for `buffer_id` concerns the editor only while that buffer is
/// the active one.
pub fn active_request_is_current(active_buffer: Option<BufferId>, buffer_id: BufferId) -> (b: bool)
    ensures
        b == (active_buffer == Some(buffer_id)),
{
    match active_buffer {
        Some(a) => a.0 == buffer_id.0,
        None => false,
    }
}

/// A request is worth keeping while its buffer is still open.
pub fn buffer_request_still_exists(open_buffers: &[BufferId], buffer_id: BufferId) -> (b: bool)
    ensures
        b == open_buffers@.contains(buffer_id),
{
    let mut i: usize = 0;
    while i < open_buffers.len()
        invariant
            i <= open_buffers.len(),
            forall|j: int| 0 <= j < i ==> open_buffers@[j] != buffer_id,
        decreases open_buffers.len() - i,
    {
        if open_buffers[i].0 == buffer_id.0 {
            assert(open_buffers@[i as int] == buffer_id);
            return true;
        }
        i += 1;
    }
    false
}

/// Stores an answer (signature help, inlay hints, code lenses, a definition
/// target) in `slot` when it concerns the active buffer. Returns whether it
/// applied.
pub fn apply_if_current<V>(
    slot: &mut V,
    active_buffer: Option<BufferId>,
    buffer_id: BufferId,
    value: V,
) -> (applied: bool)
    ensures
        applied == (active_buffer == Some(buffer_id)),
        applied ==> *final(slot) == value,
        !applied ==> *final(slot) == *old(slot),
{
    if !active_request_is_current(active_buffer, buffer_id) {
        return false;
    }
    *slot = value;
    true
}

/// The parts of the editor's state that language-server answers change.
pub struct LspUiState<T> {
    pub hover_text: Option<String>,
    pub hover_pos: Option<Position>,
    pub completion: Option<CompletionState>,
    /// A list answer shown as a popup (references, code actions, symbols).
    pub popup: Option<Vec<T>>,
    pub popup_selected: usize,
    pub status_msg: Option<String>,
}

/// Shows a hover answer for the active buffer; no text also drops the
/// hover position. Returns whether the answer applied.
pub fn apply_hover_result<T>(
    state: &mut LspUiState<T>,
    active_buffer: Option<BufferId>,
    buffer_id: BufferId,
    result: Option<String>,
) -> (applied: bool)
    ensures
        applied == (active_buffer == Some(buffer_id)),
        applied ==> final(state).hover_text == result && final(state).hover_pos == (if result is None {
            None
        } else {
            old(state).hover_pos
        }),
        !applied ==> final(state).hover_text == old(state).hover_text && final(state).hover_pos
            == old(state).hover_pos,
        final(state).completion == old(state).completion,
        final(state).popup == old(state).popup,
        final(state).popup_selected == old(state).popup_selected,
        final(state).status_msg == old(state).status_msg,
{
    if !active_request_is_current(active_buffer, buffer_id) {
        return false;
    }
    let none = result.is_none();
    state.hover_text = result;
    if none {
        state.hover_pos = None;
    }
    true
}

/// Fills the open completion popup with the items answered for the active
/// buffer; no items close it. Returns whether the answer applied.
pub fn apply_completion_result<T>(
    state: &mut LspUiState<T>,
    active_buffer: Option<BufferId>,
    buffer_id: BufferId,
    items: Vec<CompletionItem>,
) -> (applied: bool)
    ensures
        applied == (active_buffer == Some(buffer_id)),
        !applied ==> final(state).completion == old(state).completion,
        applied && items@.len() == 0 ==> final(state).completion is None,
        applied && items@.len() > 0 ==> match old(state).completion {
            Some(c) => final(state).completion == Some(CompletionState { items, ..c }),
            None => final(state).completion is None,
        },
        final(state).hover_text == old(state).hover_text,
        final(state).hover_pos == old(state).hover_pos,
        final(state).popup == old(state).popup,
        final(state).popup_selected == old(state).popup_selected,
        final(state).status_msg == old(state).status_msg,
{
    if !active_request_is_current(active_buffer, buffer_id) {
        return false;
    }
    if items.len() == 0 {
        state.completion = None;
    } else {
        match state.completion.take() {
            Some(c) => {
                state.completion = Some(CompletionState { items, ..c });
            },
            None => {},
        }
    }
    true
}

/// Closes the completion popup when the server dropped the request of the
/// active buffer. Returns whether it applied.
pub fn clear_completion_for_closed_request<T>(
    state: &mut LspUiState<T>,
    active_buffer: Option<BufferId>,
    buffer_id: BufferId,
) -> (applied: bool)
    ensures
        applied == (active_buffer == Some(buffer_id)),
        applied ==> final(state).completion is None,
        !applied ==> final(state).completion == old(state).completion,
        final(state).hover_text == old(state).hover_text,
        final(state).hover_pos == old(state).hover_pos,
        final(state).popup == old(state).popup,
        final(state).popup_selected == old(state).popup_selected,
        final(state).status_msg == old(state).status_msg,
{
    if !active_request_is_current(active_buffer, buffer_id) {
        return false;
    }
    state.completion = None;
    true
}

/// Shows a list answer (references, code actions, symbols) for the active
/// buffer in the popup, from its first row; an empty answer only reports
/// `empty_message`. Returns whether the answer applied.
pub fn apply_list_result<T>(
    state: &mut LspUiState<T>,
    active_buffer: Option<BufferId>,
    buffer_id: BufferId,
    results: Vec<T>,
    empty_message: &str,
) -> (applied: bool)
    ensures
        applied == (active_buffer == Some(buffer_id)),
        !applied ==> final(state).popup == old(state).popup && final(state).status_msg == old(
            state,
        ).status_msg && final(state).popup_selected == old(state).popup_selected,
        applied && results@.len() == 0 ==> final(state).popup == old(state).popup
            && final(state).popup_selected == old(state).popup_selected,
        applied && results@.len() == 0 ==> (final(state).status_msg matches Some(m) && m@
            == empty_message@),
        applied && results@.len() > 0 ==> final(state).popup == Some(results)
            && final(state).popup_selected == 0 && final(state).status_msg is None,
        final(state).hover_text == old(state).hover_text,
        final(state).hover_pos == old(state).hover_pos,
        final(state).completion == old(state).completion,
{
    if !active_request_is_current(active_buffer, buffer_id) {
        return false;
    }
    if results.len() == 0 {
        state.status_msg = Some(empty_message.to_string());
    } else {
        state.popup = Some(results);
        state.popup_selected = 0;
        state.status_msg = None;
    }
    true
}

/// Shows a document-symbols answer like any list answer; a non-empty one
/// also clears the symbol filter. Returns whether the answer applied.
pub fn apply_document_symbols_result<T>(
    state: &mut LspUiState<T>,
    symbols_filter: &mut String,
    active_buffer: Option<BufferId>,
    buffer_id: BufferId,
    symbols: Vec<T>,
) -> (applied: bool)
    ensures
        applied == (active_buffer == Some(buffer_id)),
        !applied ==> final(state).popup == old(state).popup && final(state).status_msg == old(
            state,
        ).status_msg && final(state).popup_selected == old(state).popup_selected,
        applied && symbols@.len() == 0 ==> final(state).popup == old(state).popup
            && final(state).popup_selected == old(state).popup_selected,
        applied && symbols@.len() == 0 ==> (final(state).status_msg matches Some(m) && m@
            == "No symbols found"@),
        applied && symbols@.len() > 0 ==> final(state).popup == Some(symbols)
            && final(state).popup_selected == 0 && final(state).status_msg is None,
        if applied && symbols@.len() > 0 {
            final(symbols_filter)@.len() == 0
        } else {
            final(symbols_filter)@ == old(symbols_filter)@
        },
        final(state).hover_text == old(state).hover_text,
        final(state).hover_pos == old(state).hover_pos,
        final(state).completion == old(state).completion,
{
    let non_empty = symbols.len() > 0;
    let applied = apply_list_result(state, active_buffer, buffer_id, symbols, "No symbols found");
    if applied && non_empty {
        *symbols_filter = String::new();
    }
    applied
}

/// The status after a rename changed `total` occurrences.
pub open spec fn rename_status_spec(total: usize) -> Seq<char> {
    if total == 0 {
        "Rename returned no changes"@
    } else if total == 1 {
        "Renamed: "@ + decimal(total as nat) + " occurrence"@
    } else {
        "Renamed: "@ + decimal(total as nat) + " occurrences"@
    }
}

/// The status after a rename changed `total` occurrences.
pub fn rename_status(total: usize) -> (r: String)
    ensures
        r@ == rename_status_spec(total),
{
    if total == 0 {
        return "Rename returned no changes".to_string();
    }
    let mut v: Vec<char> = Vec::new();
    push_str_chars(&mut v, "Renamed: ");
    assert(v@ =~= "Renamed: "@);
    push_decimal(&mut v, total);
    if total == 1 {
        push_str_chars(&mut v, " occurrence");
    } else {
        push_str_chars(&mut v, " occurrences");
    }
    string_of(v.as_slice())
}

/// The language-server part of the status line: "LSP: " and the server's
/// status, or nothing when it reports none.
pub fn lsp_status_text(status: &str) -> (r: String)
    ensures
        r@ == (if status@.len() == 0 {
            Seq::<char>::empty()
        } else {
            "LSP: "@ + status@
        }),
{
    let sv = crate::text::chars_of(status);
    if sv.len() == 0 {
        return String::new();
    }
    let mut v: Vec<char> = Vec::new();
    push_str_chars(&mut v, "LSP: ");
    assert(v@ =~= "LSP: "@);
    push_str_chars(&mut v, status);
    string_of(v.as_slice())
}

/// Server health is checked at most every five seconds.
pub fn health_check_due(seconds_since_last: u64) -> (b: bool)
    ensures
        b == (seconds_since_last >= 5),
{
    seconds_since_last >= 5
}

/// A text edit from the formatter, by zero-based positions.
#[derive(Clone, Debug, PartialEq, Eq)]
pub struct FormatEdit {
    pub start_line: u32,
    pub start_col: u32,
    pub end_line: u32,
    pub end_col: u32,
    pub new_text: String,
}

/// Edit `a` starts at or after edit `b`.
pub open spec fn starts_at_or_after(a: FormatEdit, b: FormatEdit) -> bool {
    a.start_line > b.start_line || (a.start_line == b.start_line && a.start_col >= b.start_col)
}

/// Where `e` goes among `s`: before the first edit that starts before it.
pub open spec fn insert_pos(s: Seq<FormatEdit>, e: FormatEdit) -> nat
    decreases s.len(),
{
    if s.len() > 0 && starts_at_or_after(s[0], e) {
        1 + insert_pos(s.skip(1), e)
    } else {
        0
    }
}

/// The order edits are applied in: last in the text first, so that each
/// edit leaves the positions of the ones still to come alone; edits that
/// start at the same place keep their order.
pub open spec fn edit_order(edits: Seq<FormatEdit>) -> Seq<FormatEdit>
    decreases edits.len(),
{
    if edits.len() == 0 {
        Seq::empty()
    } else {
        let sorted = edit_order(edits.drop_last());
        sorted.insert(insert_pos(sorted, edits.last()) as int, edits.last())
    }
}

proof fn lemma_insert_pos(s: Seq<FormatEdit>, e: FormatEdit)
    ensures
        insert_pos(s, e) <= s.len(),
        forall|j: int| 0 <= j < insert_pos(s, e) ==> starts_at_or_after(#[trigger] s[j], e),
        insert_pos(s, e) < s.len() ==> !starts_at_or_after(s[insert_pos(s, e) as int], e),
    decreases s.len(),
{
    if s.len() > 0 && starts_at_or_after(s[0], e) {
        lemma_insert_pos(s.skip(1), e);
        assert forall|j: int| 0 <= j < insert_pos(s, e) implies starts_at_or_after(#[trigger] s[j], e) by {
            if j > 0 {
                assert(s[j] == s.skip(1)[j - 1]);
            }
        }
    }
}

proof fn lemma_insert_pos_unique(s: Seq<FormatEdit>, e: FormatEdit, p: int)
    requires
        0 <= p <= s.len(),
        forall|j: int| 0 <= j < p ==> starts_at_or_after(#[trigger] s[j], e),
        p < s.len() ==> !starts_at_or_after(s[p], e),
    ensures
        insert_pos(s, e) == p,
    decreases s.len(),
{
    if p > 0 {
        assert(starts_at_or_after(s[0], e));
        assert forall|j: int| 0 <= j < p - 1 implies starts_at_or_after(#[trigger] s.skip(1)[j], e) by {
            assert(s.skip(1)[j] == s[j + 1]);
        }
        if p - 1 < s.skip(1).len() {
            assert(s.skip(1)[p - 1] == s[p]);
        }
        lemma_insert_pos_unique(s.skip(1), e, p - 1);
    }
}

/// The edits in the order they are applied.
pub fn format_edit_order(edits: Vec<FormatEdit>) -> (r: Vec<FormatEdit>)
    ensures
        r@ == edit_order(edits@),
{
    let ghost given = edits@;
    let n = edits.len();
    assert(given.len() == n);
    let mut rest = edits;
    let mut out: Vec<FormatEdit> = Vec::new();
    let mut k: usize = 0;
    while rest.len() > 0
        invariant
            k + rest@.len() == given.len(),
            given.len() <= usize::MAX,
            rest@ == given.skip(k as int),
            out@ == edit_order(given.take(k as int)),
        decreases rest.len(),
    {
        let e = rest.remove(0);
        assert(e == given[k as int]);
        assert(given.take(k + 1).drop_last() =~= given.take(k as int));
        assert(given.take(k + 1).last() == e);
        let mut p: usize = 0;
        while p < out.len() && (out[p].start_line > e.start_line || (out[p].start_line
            == e.start_line && out[p].start_col >= e.start_col))
            invariant
                p <= out.len(),
                forall|j: int| 0 <= j < p ==> starts_at_or_after(#[trigger] out@[j], e),
            decreases out.len() - p,
        {
            p += 1;
        }
        proof {
            lemma_insert_pos_unique(out@, e, p as int);
        }
        out.insert(p, e);
        assert(rest@ =~= given.skip(k + 1));
        k += 1;
    }
    assert(given.take(k as int) =~= given);
    out
}

/// The applied order runs from the end of the text to its start.
pub open spec fn applies_bottom_up(s: Seq<FormatEdit>) -> bool {
    forall|i: int, j: int| 0 <= i < j < s.len() ==> starts_at_or_after(#[trigger] s[i], #[trigger] s[j])
}

/// The order in which formatter edits are applied holds exactly the edits
/// received, and applies them from the end of the text to its start.
pub proof fn law_edit_order_bottom_up_permutation(edits: Seq<FormatEdit>)
    ensures
        applies_bottom_up(edit_order(edits)),
        edit_order(edits).to_multiset() == edits.to_multiset(),
    decreases edits.len(),
{
    broadcast use vstd::seq_lib::group_to_multiset_ensures;

    if edits.len() == 0 {
        assert(edits =~= Seq::<FormatEdit>::empty());
    } else {
        let prev = edits.drop_last();
        let e = edits.last();
        law_edit_order_bottom_up_permutation(prev);
        let sorted = edit_order(prev);
        lemma_insert_pos(sorted, e);
        let p = insert_pos(sorted, e) as int;
        let r = sorted.insert(p, e);
        assert(r.len() == sorted.len() + 1);
        assert forall|i: int, j: int| 0 <= i < j < r.len() implies starts_at_or_after(
            #[trigger] r[i],
            #[trigger] r[j],
        ) by {
            if j < p {
                assert(r[i] == sorted[i] && r[j] == sorted[j]);
            } else if j == p {
                assert(r[i] == sorted[i]);
            } else if i == p {
                assert(r[j] == sorted[j - 1]);
                assert(!starts_at_or_after(sorted[p], e));
                assert(starts_at_or_after(sorted[p], sorted[j - 1]) || p == j - 1);
            } else if i < p {
                assert(r[i] == sorted[i] && r[j] == sorted[j - 1]);
            } else {
                assert(r[i] == sorted[i - 1] && r[j] == sorted[j - 1]);
            }
        }
        assert(edits =~= prev.push(e));
    }
}

} // verus!
