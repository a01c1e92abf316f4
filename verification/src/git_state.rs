//! The Git view's state machine: which repository is shown, which commit is
//! selected, and which background loads are in flight.
//!
//! Loading runs elsewhere. A method that starts a load hands back the request
//! to run; the result comes back as an event to `poll_refresh` or
//! `poll_detail`, which accept it only while it answers the latest request.
use vstd::prelude::*;

use crate::git::{
    commit_oid_after_move, commit_position, move_target, CommitDetail, GitCommitNode, GitError,
    GitErrorKind, GitSelectionMove, GitSnapshot,
};

verus! {

/// A request to discover and load the repository around `candidate`.
#[derive(Clone, Debug, PartialEq, Eq)]
pub struct RefreshRequest {
    pub id: u64,
    pub candidate: String,
}

/// A request to load the detail of commit `oid` of the repository at `repo_root`.
#[derive(Clone, Debug, PartialEq, Eq)]
pub struct DetailRequest {
    pub id: u64,
    pub repo_root: String,
    pub oid: String,
}

#[derive(Clone, Copy, Debug, PartialEq, Eq, Structural)]
pub enum GitPanel {
    CommitLog,
    Readme,
}

/// What the refresh channel yields when polled.
pub enum RefreshEvent {
    Empty,
    Disconnected,
    Message(RefreshRequest, Result<GitSnapshot, GitError>),
}

/// What the detail channel yields when polled.
pub enum DetailEvent {
    Empty,
    Disconnected,
    Message(DetailRequest, Result<CommitDetail, GitError>),
}

/// How the search for a README ended.
pub enum ReadmeOutcome {
    Found(String),
    Unreadable(String),
    Missing,
}

/// The state of the Git view. `awaiting_refresh` and `awaiting_detail` say
/// whether a result channel is held for the latest refresh or detail load.
pub struct GitUiState {
    pub candidate_root: Option<String>,
    pub repo_root: Option<String>,
    pub snapshot: Option<GitSnapshot>,
    pub selected_commit: Option<String>,
    pub selected_detail: Option<CommitDetail>,
    pub active_panel: GitPanel,
    pub detail_expanded: bool,
    pub filter: String,
    pub loading: bool,
    pub detail_loading: bool,
    pub error: Option<String>,
    pub error_kind: Option<GitErrorKind>,
    pub detail_error: Option<String>,
    pub awaiting_refresh: bool,
    pub refresh_requested: Option<RefreshRequest>,
    pub awaiting_detail: bool,
    pub detail_requested: Option<DetailRequest>,
    pub readme_root: Option<String>,
    pub readme_text: Option<String>,
    pub readme_error: Option<String>,
    pub next_request_id: u64,
}

impl Default for GitUiState {
    fn default() -> (s: GitUiState)
        ensures
            s.candidate_root is None,
            s.repo_root is None,
            s.snapshot is None,
            s.selected_commit is None,
            s.selected_detail is None,
            s.active_panel == GitPanel::CommitLog,
            !s.detail_expanded,
            s.filter@.len() == 0,
            !s.loading,
            !s.detail_loading,
            s.error is None,
            s.error_kind is None,
            s.detail_error is None,
            !s.awaiting_refresh,
            s.refresh_requested is None,
            !s.awaiting_detail,
            s.detail_requested is None,
            s.readme_root is None,
            s.readme_text is None,
            s.readme_error is None,
            s.next_request_id == 0,
            requests_issued(s),
    {
        GitUiState {
            candidate_root: None,
            repo_root: None,
            snapshot: None,
            selected_commit: None,
            selected_detail: None,
            active_panel: GitPanel::CommitLog,
            detail_expanded: false,
            filter: String::new(),
            loading: false,
            detail_loading: false,
            error: None,
            error_kind: None,
            detail_error: None,
            awaiting_refresh: false,
            refresh_requested: None,
            awaiting_detail: false,
            detail_requested: None,
            readme_root: None,
            readme_text: None,
            readme_error: None,
            next_request_id: 0,
        }
    }
}

/// `o` holds a string whose characters are `s`.
pub open spec fn holds(o: Option<String>, s: Seq<char>) -> bool {
    o matches Some(x) && x@ == s
}

/// The characters an optional string holds.
pub open spec fn opt_view(o: Option<String>) -> Option<Seq<char>> {
    match o {
        Some(x) => Some(x@),
        None => None,
    }
}

/// Every request the state records was issued from its counter: its id is
/// at most `next_request_id`. Ids are handed out in increasing order, so a
/// request made now differs from every recorded one.
pub open spec fn requests_issued(s: GitUiState) -> bool {
    &&& s.refresh_requested matches Some(q) ==> q.id <= s.next_request_id
    &&& s.detail_requested matches Some(q) ==> q.id <= s.next_request_id
}

/// A refresh result answers the latest refresh request.
pub open spec fn refresh_is_current(s: GitUiState, request: RefreshRequest) -> bool {
    s.refresh_requested matches Some(r) && r.id == request.id && r.candidate@
        == request.candidate@
}

/// A detail result answers the latest detail request, for the repository
/// shown and the commit selected.
pub open spec fn detail_is_current(s: GitUiState, request: DetailRequest) -> bool {
    &&& holds(s.repo_root, request.repo_root@)
    &&& holds(s.selected_commit, request.oid@)
    &&& s.detail_requested matches Some(r) && r.id == request.id && r.repo_root@
        == request.repo_root@ && r.oid@ == request.oid@
}

/// A refresh of `candidate` is already loading.
pub open spec fn loading_candidate(s: GitUiState, candidate: Seq<char>) -> bool {
    &&& s.loading
    &&& s.refresh_requested matches Some(q) && q.candidate@ == candidate
}

/// The state after selecting commit `oid`: a new selection drops the detail
/// shown and any detail load in flight.
pub open spec fn select_commit_spec(s: GitUiState, oid: String) -> GitUiState {
    if holds(s.selected_commit, oid@) {
        s
    } else {
        GitUiState {
            selected_commit: Some(oid),
            selected_detail: None,
            detail_error: None,
            detail_loading: false,
            awaiting_detail: false,
            detail_requested: None,
            detail_expanded: false,
            ..s
        }
    }
}

/// The state after a refresh of `candidate` is asked for, and the request
/// to run, if any.
pub open spec fn start_refresh_spec(s: GitUiState, candidate: String, force: bool) -> (
    GitUiState,
    Option<RefreshRequest>,
) {
    if !force && loading_candidate(s, candidate@) {
        (s, None)
    } else {
        let id = s.next_request_id.wrapping_add(1);
        let r = RefreshRequest { id, candidate };
        (
            GitUiState {
                next_request_id: id,
                loading: true,
                error: None,
                error_kind: None,
                refresh_requested: Some(r),
                awaiting_refresh: true,
                ..s
            },
            Some(r),
        )
    }
}

/// The state once the view moves to another candidate directory `c`:
/// everything known of the previous repository is dropped.
pub open spec fn reset_for_candidate(s: GitUiState, c: String) -> GitUiState {
    GitUiState {
        candidate_root: Some(c),
        repo_root: None,
        snapshot: None,
        selected_commit: None,
        selected_detail: None,
        detail_loading: false,
        awaiting_detail: false,
        detail_requested: None,
        detail_expanded: false,
        error: None,
        error_kind: None,
        detail_error: None,
        readme_root: None,
        readme_text: None,
        readme_error: None,
        ..s
    }
}

/// The commit that is selected after a refresh, as a value: the previous
/// selection if the new log still has it, else the newest commit's id.
pub open spec fn selection_after(previous: Option<String>, commits: Seq<GitCommitNode>) -> Option<
    String,
> {
    if previous matches Some(p) && exists|i: int|
        0 <= i < commits.len() && (#[trigger] commits[i]).oid@ == p@ {
        previous
    } else if commits.len() > 0 {
        Some(commits[0].oid)
    } else {
        None
    }
}

/// The state after the latest refresh delivered `snap`. The detail is
/// dropped when the repository or the selection changed.
pub open spec fn refreshed(s: GitUiState, snap: GitSnapshot) -> GitUiState {
    let selected = selection_after(s.selected_commit, snap.commits@);
    let drop_detail = !holds(s.repo_root, snap.repo_root@) || opt_view(selected) != opt_view(
        s.selected_commit,
    );
    GitUiState {
        loading: false,
        refresh_requested: None,
        repo_root: Some(snap.repo_root),
        error: None,
        error_kind: None,
        selected_commit: selected,
        snapshot: Some(snap),
        awaiting_refresh: false,
        selected_detail: if drop_detail {
            None
        } else {
            s.selected_detail
        },
        detail_loading: if drop_detail {
            false
        } else {
            s.detail_loading
        },
        awaiting_detail: if drop_detail {
            false
        } else {
            s.awaiting_detail
        },
        detail_requested: if drop_detail {
            None
        } else {
            s.detail_requested
        },
        detail_error: if drop_detail {
            None
        } else {
            s.detail_error
        },
        ..s
    }
}

/// The state after the latest refresh failed with `err`: nothing of the
/// repository is kept.
pub open spec fn refresh_failed(s: GitUiState, err: GitError) -> GitUiState {
    GitUiState {
        loading: false,
        refresh_requested: None,
        error_kind: Some(err.kind),
        error: Some(err.message),
        snapshot: None,
        repo_root: None,
        selected_commit: None,
        selected_detail: None,
        detail_loading: false,
        detail_requested: None,
        awaiting_detail: false,
        detail_error: None,
        readme_root: None,
        readme_text: None,
        readme_error: None,
        awaiting_refresh: false,
        ..s
    }
}

/// How one polled refresh event takes state `s` to state `t`; `accepted`
/// says whether a snapshot was taken.
pub open spec fn refresh_step(s: GitUiState, event: RefreshEvent, t: GitUiState, accepted: bool) -> bool {
    if !s.awaiting_refresh {
        t == s && !accepted
    } else {
        match event {
            RefreshEvent::Empty => t == s && !accepted,
            RefreshEvent::Disconnected => {
                &&& !accepted
                &&& holds(t.error, "Git refresh stopped unexpectedly."@)
                &&& t == GitUiState {
                    loading: false,
                    refresh_requested: None,
                    error_kind: Some(GitErrorKind::CommandFailed),
                    error: t.error,
                    awaiting_refresh: false,
                    ..s
                }
            },
            RefreshEvent::Message(request, result) => if !refresh_is_current(s, request) {
                t == s && !accepted
            } else {
                match result {
                    Ok(snap) => accepted && t == refreshed(s, snap),
                    Err(err) => !accepted && t == refresh_failed(s, err),
                }
            },
        }
    }
}

/// How one polled detail event takes state `s` to state `t`.
pub open spec fn detail_step(s: GitUiState, event: DetailEvent, t: GitUiState) -> bool {
    if !s.awaiting_detail {
        t == s
    } else {
        match event {
            DetailEvent::Empty => t == s,
            DetailEvent::Disconnected => {
                &&& holds(t.detail_error, "Git detail loading stopped unexpectedly."@)
                &&& t == GitUiState {
                    detail_loading: false,
                    detail_error: t.detail_error,
                    detail_requested: None,
                    awaiting_detail: false,
                    ..s
                }
            },
            DetailEvent::Message(request, result) => if !detail_is_current(s, request) {
                t == s
            } else {
                match result {
                    Ok(detail) => t == GitUiState {
                        detail_loading: false,
                        detail_error: None,
                        detail_requested: None,
                        selected_detail: Some(detail),
                        awaiting_detail: false,
                        ..s
                    },
                    Err(err) => t == GitUiState {
                        detail_loading: false,
                        detail_error: Some(err.message),
                        detail_requested: None,
                        awaiting_detail: false,
                        ..s
                    },
                }
            },
        }
    }
}

/// The detail of the selected commit is shown or already requested.
pub open spec fn detail_known(s: GitUiState, root: Seq<char>, oid: Seq<char>) -> bool {
    ||| s.selected_detail matches Some(d) && d.oid@ == oid
    ||| s.detail_requested matches Some(q) && q.repo_root@ == root && q.oid@ == oid
}

/// The detail request to run for the selected commit, if one is needed.
pub open spec fn detail_to_load(s: GitUiState) -> Option<DetailRequest> {
    match (s.repo_root, s.selected_commit) {
        (Some(root), Some(oid)) => if detail_known(s, root@, oid@) {
            None
        } else {
            Some(DetailRequest { id: s.next_request_id.wrapping_add(1), repo_root: root, oid })
        },
        _ => None,
    }
}

/// Selecting the same commit twice is the same as selecting it once.
pub proof fn law_select_commit_idempotent(s: GitUiState, a: String, b: String)
    requires
        a@ == b@,
    ensures
        select_commit_spec(select_commit_spec(s, a), b) == select_commit_spec(s, a),
{
}

/// After a new commit is selected, no detail result is accepted until a new
/// detail load is requested.
pub proof fn law_select_commit_cancels_detail(s: GitUiState, oid: String, request: DetailRequest)
    requires
        !holds(s.selected_commit, oid@),
    ensures
        !detail_is_current(select_commit_spec(s, oid), request),
        !select_commit_spec(s, oid).awaiting_detail,
{
}

/// A refresh result that does not answer the latest request leaves the
/// state as it was.
pub proof fn law_stale_refresh_discarded(
    s: GitUiState,
    request: RefreshRequest,
    result: Result<GitSnapshot, GitError>,
    t: GitUiState,
    accepted: bool,
)
    requires
        refresh_step(s, RefreshEvent::Message(request, result), t, accepted),
        !refresh_is_current(s, request),
    ensures
        t == s,
        !accepted,
{
}

/// A detail result that does not answer the latest request, for the
/// repository shown and the commit selected, leaves the state as it was.
pub proof fn law_stale_detail_discarded(
    s: GitUiState,
    request: DetailRequest,
    result: Result<CommitDetail, GitError>,
    t: GitUiState,
)
    requires
        detail_step(s, DetailEvent::Message(request, result), t),
        !detail_is_current(s, request),
    ensures
        t == s,
{
}

/// Once a refresh is started, its own request is the only one whose result
/// is accepted: any request with another id is stale.
pub proof fn law_latest_refresh_only(
    s: GitUiState,
    candidate: String,
    force: bool,
    other: RefreshRequest,
)
    requires
        start_refresh_spec(s, candidate, force).1 is Some,
        other.id != s.next_request_id.wrapping_add(1),
    ensures
        refresh_is_current(start_refresh_spec(s, candidate, force).0, start_refresh_spec(
            s,
            candidate,
            force,
        ).1->0),
        !refresh_is_current(start_refresh_spec(s, candidate, force).0, other),
{
}

/// A refresh of the same repository that still holds the selected commit
/// keeps the selection and the detail shown for it.
pub proof fn law_refresh_keeps_present_selection(s: GitUiState, snap: GitSnapshot, i: int)
    requires
        s.selected_commit matches Some(p) && 0 <= i < snap.commits@.len()
            && snap.commits@[i].oid@ == p@,
        holds(s.repo_root, snap.repo_root@),
    ensures
        refreshed(s, snap).selected_commit == s.selected_commit,
        refreshed(s, snap).selected_detail == s.selected_detail,
        refreshed(s, snap).detail_requested == s.detail_requested,
{
    assert(snap.commits@[i].oid@ == s.selected_commit->0@);
}

fn has_commit(commits: &Vec<GitCommitNode>, oid: &String) -> (b: bool)
    ensures
        b == exists|i: int| 0 <= i < commits@.len() && (#[trigger] commits@[i]).oid@ == oid@,
{
    let mut i: usize = 0;
    while i < commits.len()
        invariant
            i <= commits.len(),
            forall|j: int| 0 <= j < i ==> (#[trigger] commits@[j]).oid@ != oid@,
        decreases commits.len() - i,
    {
        if commits[i].oid == *oid {
            return true;
        }
        i += 1;
    }
    false
}

/// The file names tried, in order, when looking for a repository's README.
pub fn readme_candidates() -> (v: Vec<&'static str>)
    ensures
        v@.len() == 6,
        v@[0]@ == "README.md"@,
        v@[1]@ == "Readme.md"@,
        v@[2]@ == "readme.md"@,
        v@[3]@ == "README"@,
        v@[4]@ == "README.txt"@,
        v@[5]@ == "readme.txt"@,
{
    vec!["README.md", "Readme.md", "readme.md", "README", "README.txt", "readme.txt"]
}

/// The keys pressed over the commit log in one frame.
#[derive(Clone, Copy, Debug, PartialEq, Eq, Structural)]
pub struct LogKeys {
    pub up: bool,
    pub down: bool,
    pub home: bool,
    pub end: bool,
    /// Enter or Space.
    pub toggle: bool,
}

/// The move the keys ask for; when several are pressed the last of Up,
/// Down, Home, End wins.
pub open spec fn log_key_move(keys: LogKeys) -> Option<GitSelectionMove> {
    if keys.end {
        Some(GitSelectionMove::Last)
    } else if keys.home {
        Some(GitSelectionMove::First)
    } else if keys.down {
        Some(GitSelectionMove::Next)
    } else if keys.up {
        Some(GitSelectionMove::Previous)
    } else {
        None
    }
}

/// The move the keys ask for.
pub fn log_key_movement(keys: LogKeys) -> (m: Option<GitSelectionMove>)
    ensures
        m == log_key_move(keys),
{
    let mut movement = None;
    if keys.up {
        movement = Some(GitSelectionMove::Previous);
    }
    if keys.down {
        movement = Some(GitSelectionMove::Next);
    }
    if keys.home {
        movement = Some(GitSelectionMove::First);
    }
    if keys.end {
        movement = Some(GitSelectionMove::Last);
    }
    movement
}

/// The commit id the keys move the selection to among `commits`, if any.
pub open spec fn log_key_target(
    commits: Seq<GitCommitNode>,
    selected: Option<String>,
    keys: LogKeys,
) -> Option<Seq<char>> {
    match log_key_move(keys) {
        Some(m) => if commits.len() > 0 {
            let current = match selected {
                Some(s) => commit_position(commits, s@),
                None => None,
            };
            Some(commits[move_target(commits.len() as int, current, m)].oid@)
        } else {
            None
        },
        None => None,
    }
}

fn opt_str_eq(a: &Option<String>, b: &Option<String>) -> (r: bool)
    ensures
        r == (opt_view(*a) == opt_view(*b)),
{
    match (a, b) {
        (Some(x), Some(y)) => *x == *y,
        (None, None) => true,
        _ => false,
    }
}

fn opt_str_is(a: &Option<String>, b: &String) -> (r: bool)
    ensures
        r == holds(*a, b@),
{
    match a {
        Some(x) => *x == *b,
        None => false,
    }
}

fn clone_opt(o: &Option<String>) -> (r: Option<String>)
    ensures
        r == *o,
{
    match o {
        Some(x) => Some(x.clone()),
        None => None,
    }
}

fn clone_refresh_request(r: &RefreshRequest) -> (c: RefreshRequest)
    ensures
        c == *r,
{
    RefreshRequest { id: r.id, candidate: r.candidate.clone() }
}

fn clone_detail_request(r: &DetailRequest) -> (c: DetailRequest)
    ensures
        c == *r,
{
    DetailRequest { id: r.id, repo_root: r.repo_root.clone(), oid: r.oid.clone() }
}

impl GitUiState {
    /// Whether a refresh result for `request` answers the latest refresh request.
    pub fn refresh_result_is_current(&self, request: &RefreshRequest) -> (b: bool)
        ensures
            b == refresh_is_current(*self, *request),
    {
        match &self.refresh_requested {
            Some(r) => r.id == request.id && r.candidate == request.candidate,
            None => false,
        }
    }

    /// Whether a detail result for `request` answers the latest detail
    /// request for the repository shown and the commit selected.
    pub fn detail_result_is_current(&self, request: &DetailRequest) -> (b: bool)
        ensures
            b == detail_is_current(*self, *request),
    {
        if !opt_str_is(&self.repo_root, &request.repo_root) {
            return false;
        }
        if !opt_str_is(&self.selected_commit, &request.oid) {
            return false;
        }
        match &self.detail_requested {
            Some(r) => r.id == request.id && r.repo_root == request.repo_root && r.oid
                == request.oid,
            None => false,
        }
    }

    /// Advances the request counter (wrapping) and returns its new value.
    pub fn next_request_id(&mut self) -> (id: u64)
        ensures
            id == old(self).next_request_id.wrapping_add(1),
            *final(self) == (GitUiState { next_request_id: id, ..*old(self) }),
            requests_issued(*old(self)) && old(self).next_request_id < u64::MAX ==> requests_issued(
                *final(self),
            ),
    {
        self.next_request_id = self.next_request_id.wrapping_add(1);
        self.next_request_id
    }

    /// Selects commit `oid`; a new selection cancels the detail load in flight.
    pub fn select_commit(&mut self, oid: String)
        ensures
            *final(self) == select_commit_spec(*old(self), oid),
            requests_issued(*old(self)) ==> requests_issued(*final(self)),
    {
        if opt_str_is(&self.selected_commit, &oid) {
            return;
        }
        self.selected_commit = Some(oid);
        self.selected_detail = None;
        self.detail_error = None;
        self.detail_loading = false;
        self.awaiting_detail = false;
        self.detail_requested = None;
        self.detail_expanded = false;
    }

    /// Starts loading the repository around `candidate` and returns the
    /// request to run, unless (without `force`) the same candidate is
    /// already loading.
    pub fn start_refresh(&mut self, candidate: String, force: bool) -> (r: Option<RefreshRequest>)
        ensures
            (*final(self), r) == start_refresh_spec(*old(self), candidate, force),
            requests_issued(*old(self)) && old(self).next_request_id < u64::MAX ==> requests_issued(
                *final(self),
            ),
    {
        if !force && self.loading {
            match &self.refresh_requested {
                Some(q) => {
                    if q.candidate == candidate {
                        return None;
                    }
                },
                None => {},
            }
        }
        let id = self.next_request_id();
        let request = RefreshRequest { id, candidate };
        self.loading = true;
        self.error = None;
        self.error_kind = None;
        self.refresh_requested = Some(clone_refresh_request(&request));
        self.awaiting_refresh = true;
        Some(request)
    }

    /// Handles what the refresh channel yielded; returns whether a new
    /// snapshot was taken.
    pub fn poll_refresh(&mut self, event: RefreshEvent) -> (accepted: bool)
        ensures
            refresh_step(*old(self), event, *final(self), accepted),
            requests_issued(*old(self)) ==> requests_issued(*final(self)),
    {
        if !self.awaiting_refresh {
            return false;
        }
        match event {
            RefreshEvent::Empty => false,
            RefreshEvent::Disconnected => {
                self.loading = false;
                self.refresh_requested = None;
                self.error_kind = Some(GitErrorKind::CommandFailed);
                self.error = Some("Git refresh stopped unexpectedly.".to_string());
                self.awaiting_refresh = false;
                false
            },
            RefreshEvent::Message(request, result) => {
                if !self.refresh_result_is_current(&request) {
                    return false;
                }
                match result {
                    Ok(snapshot) => {
                        let ghost s = *self;
                        self.loading = false;
                        self.refresh_requested = None;
                        let repo_changed = !opt_str_is(&self.repo_root, &snapshot.repo_root);
                        self.repo_root = Some(snapshot.repo_root.clone());
                        self.error = None;
                        self.error_kind = None;
                        let selected: Option<String> = match &self.selected_commit {
                            Some(p) => {
                                if has_commit(&snapshot.commits, p) {
                                    Some(p.clone())
                                } else if snapshot.commits.len() > 0 {
                                    Some(snapshot.commits[0].oid.clone())
                                } else {
                                    None
                                }
                            },
                            None => {
                                if snapshot.commits.len() > 0 {
                                    Some(snapshot.commits[0].oid.clone())
                                } else {
                                    None
                                }
                            },
                        };
                        assert(selected == selection_after(s.selected_commit, snapshot.commits@));
                        if repo_changed || !opt_str_eq(&selected, &self.selected_commit) {
                            self.selected_detail = None;
                            self.detail_loading = false;
                            self.awaiting_detail = false;
                            self.detail_requested = None;
                            self.detail_error = None;
                        }
                        self.selected_commit = selected;
                        self.snapshot = Some(snapshot);
                        self.awaiting_refresh = false;
                        true
                    },
                    Err(err) => {
                        self.loading = false;
                        self.refresh_requested = None;
                        self.error_kind = Some(err.kind);
                        self.error = Some(err.message);
                        self.snapshot = None;
                        self.repo_root = None;
                        self.selected_commit = None;
                        self.selected_detail = None;
                        self.detail_loading = false;
                        self.detail_requested = None;
                        self.awaiting_detail = false;
                        self.detail_error = None;
                        self.readme_root = None;
                        self.readme_text = None;
                        self.readme_error = None;
                        self.awaiting_refresh = false;
                        false
                    },
                }
            },
        }
    }

    /// Handles what the detail channel yielded.
    pub fn poll_detail(&mut self, event: DetailEvent)
        ensures
            detail_step(*old(self), event, *final(self)),
            requests_issued(*old(self)) ==> requests_issued(*final(self)),
    {
        if !self.awaiting_detail {
            return;
        }
        match event {
            DetailEvent::Empty => {},
            DetailEvent::Disconnected => {
                self.detail_loading = false;
                self.detail_error = Some("Git detail loading stopped unexpectedly.".to_string());
                self.detail_requested = None;
                self.awaiting_detail = false;
            },
            DetailEvent::Message(request, result) => {
                if !self.detail_result_is_current(&request) {
                    return;
                }
                match result {
                    Ok(detail) => {
                        self.detail_loading = false;
                        self.detail_error = None;
                        self.detail_requested = None;
                        self.selected_detail = Some(detail);
                        self.awaiting_detail = false;
                    },
                    Err(err) => {
                        self.detail_loading = false;
                        self.detail_error = Some(err.message);
                        self.detail_requested = None;
                        self.awaiting_detail = false;
                    },
                }
            },
        }
    }

    /// Handles a refresh event, then a detail event; returns whether a new
    /// snapshot was taken.
    pub fn poll(&mut self, refresh: RefreshEvent, detail: DetailEvent) -> (accepted: bool)
        ensures
            exists|mid: GitUiState|
                refresh_step(*old(self), refresh, mid, accepted) && detail_step(
                    mid,
                    detail,
                    *final(self),
                ),
            requests_issued(*old(self)) ==> requests_issued(*final(self)),
    {
        let accepted = self.poll_refresh(refresh);
        let ghost mid = *self;
        self.poll_detail(detail);
        assert(refresh_step(*old(self), refresh, mid, accepted));
        accepted
    }

    /// Shows the repository around `candidate_root`: a new candidate drops
    /// what was shown; a refresh starts if nothing is loaded, loading or failed.
    pub fn ensure_loaded(&mut self, candidate_root: &str) -> (r: Option<RefreshRequest>)
        ensures
            if !holds(old(self).candidate_root, candidate_root@) {
                final(self).candidate_root matches Some(c) && c@ == candidate_root@ && (
                *final(self),
                r,
                ) == start_refresh_spec(reset_for_candidate(*old(self), c), c, false)
            } else if old(self).snapshot is None && old(self).error is None && !old(
                self,
            ).loading {
                r matches Some(q) && q.candidate@ == candidate_root@ && (*final(self), r)
                    == start_refresh_spec(*old(self), q.candidate, false)
            } else {
                r is None && *final(self) == *old(self)
            },
            requests_issued(*old(self)) && old(self).next_request_id < u64::MAX ==> requests_issued(
                *final(self),
            ),
    {
        let candidate = candidate_root.to_string();
        if !opt_str_is(&self.candidate_root, &candidate) {
            self.candidate_root = Some(candidate.clone());
            self.repo_root = None;
            self.snapshot = None;
            self.selected_commit = None;
            self.selected_detail = None;
            self.detail_loading = false;
            self.awaiting_detail = false;
            self.detail_requested = None;
            self.detail_expanded = false;
            self.error = None;
            self.error_kind = None;
            self.detail_error = None;
            self.readme_root = None;
            self.readme_text = None;
            self.readme_error = None;
            self.start_refresh(candidate, false)
        } else if self.snapshot.is_none() && self.error.is_none() && !self.loading {
            self.start_refresh(candidate, false)
        } else {
            None
        }
    }

    /// Reloads the current candidate, even while a load is running.
    pub fn refresh(&mut self) -> (r: Option<RefreshRequest>)
        ensures
            match old(self).candidate_root {
                Some(c) => (*final(self), r) == start_refresh_spec(*old(self), c, true),
                None => r is None && *final(self) == *old(self),
            },
            requests_issued(*old(self)) && old(self).next_request_id < u64::MAX ==> requests_issued(
                *final(self),
            ),
            requests_issued(*old(self)) && old(self).next_request_id < u64::MAX && old(
                self,
            ).candidate_root is Some ==> (r matches Some(q) && (old(self).refresh_requested matches Some(
                p,
            ) ==> p.id < q.id) && final(self).refresh_requested == r),
    {
        match clone_opt(&self.candidate_root) {
            Some(c) => self.start_refresh(c, true),
            None => None,
        }
    }

    /// Starts loading the detail of the selected commit unless it is shown or
    /// already requested; returns the request to run.
    pub fn ensure_detail_loaded(&mut self) -> (r: Option<DetailRequest>)
        ensures
            match detail_to_load(*old(self)) {
                Some(q) => r == Some(q) && *final(self) == (GitUiState {
                    next_request_id: q.id,
                    detail_loading: true,
                    detail_error: None,
                    detail_requested: r,
                    awaiting_detail: true,
                    ..*old(self)
                }),
                None => r is None && *final(self) == *old(self),
            },
            requests_issued(*old(self)) && old(self).next_request_id < u64::MAX ==> requests_issued(
                *final(self),
            ),
    {
        let root = match &self.repo_root {
            Some(root) => root.clone(),
            None => return None,
        };
        let oid = match &self.selected_commit {
            Some(oid) => oid.clone(),
            None => return None,
        };
        let shown = match &self.selected_detail {
            Some(d) => d.oid == oid,
            None => false,
        };
        let requested = match &self.detail_requested {
            Some(q) => q.repo_root == root && q.oid == oid,
            None => false,
        };
        if shown || requested {
            return None;
        }
        let id = self.next_request_id();
        let request = DetailRequest { id, repo_root: root, oid };
        self.detail_loading = true;
        self.detail_error = None;
        self.detail_requested = Some(clone_detail_request(&request));
        self.awaiting_detail = true;
        Some(request)
    }

    /// Begins loading the README of the repository shown, unless it was
    /// already loaded; returns the repository root to search.
    pub fn ensure_readme_loaded(&mut self) -> (r: Option<String>)
        ensures
            match old(self).repo_root {
                Some(root) => if holds(old(self).readme_root, root@) {
                    r is None && *final(self) == *old(self)
                } else {
                    r == Some(root) && *final(self) == (GitUiState {
                        readme_root: Some(root),
                        readme_text: None,
                        readme_error: None,
                        ..*old(self)
                    })
                },
                None => r is None && *final(self) == *old(self),
            },
            requests_issued(*old(self)) ==> requests_issued(*final(self)),
    {
        let root = match &self.repo_root {
            Some(root) => root.clone(),
            None => return None,
        };
        if opt_str_is(&self.readme_root, &root) {
            return None;
        }
        self.readme_root = Some(root.clone());
        self.readme_text = None;
        self.readme_error = None;
        Some(root)
    }

    /// Records how the README search ended.
    pub fn finish_readme_load(&mut self, outcome: ReadmeOutcome)
        ensures
            match outcome {
                ReadmeOutcome::Found(text) => *final(self) == (GitUiState {
                    readme_text: Some(text),
                    ..*old(self)
                }),
                ReadmeOutcome::Unreadable(message) => *final(self) == (GitUiState {
                    readme_error: Some(message),
                    ..*old(self)
                }),
                ReadmeOutcome::Missing => holds(
                    final(self).readme_error,
                    "No README found in this repository."@,
                ) && *final(self) == (GitUiState {
                    readme_error: final(self).readme_error,
                    ..*old(self)
                }),
            },
            requests_issued(*old(self)) ==> requests_issued(*final(self)),
    {
        match outcome {
            ReadmeOutcome::Found(text) => {
                self.readme_text = Some(text);
            },
            ReadmeOutcome::Unreadable(message) => {
                self.readme_error = Some(message);
            },
            ReadmeOutcome::Missing => {
                self.readme_error = Some("No README found in this repository.".to_string());
            },
        }
    }

    /// Handles the keys pressed over the commit log: a move selects the
    /// commit it lands on among `commits`; Enter or Space then toggles the
    /// detail.
    pub fn handle_log_keys(&mut self, commits: &[&GitCommitNode], keys: LogKeys)
        ensures
            ({
                let target = log_key_target(
                    commits@.map_values(|c: &GitCommitNode| *c),
                    old(self).selected_commit,
                    keys,
                );
                let moved = match target {
                    Some(t) => final(self).selected_commit matches Some(s) && s@ == t
                        && select_commit_spec(*old(self), final(self).selected_commit->0)
                        == (GitUiState {
                        detail_expanded: if keys.toggle {
                            !final(self).detail_expanded
                        } else {
                            final(self).detail_expanded
                        },
                        ..*final(self)
                    }),
                    None => *old(self) == (GitUiState {
                        detail_expanded: if keys.toggle {
                            !final(self).detail_expanded
                        } else {
                            final(self).detail_expanded
                        },
                        ..*final(self)
                    }),
                };
                moved
            }),
            requests_issued(*old(self)) ==> requests_issued(*final(self)),
    {
        match log_key_movement(keys) {
            Some(movement) => {
                let target = match &self.selected_commit {
                    Some(s) => commit_oid_after_move(commits, Some(s.as_str()), movement),
                    None => commit_oid_after_move(commits, None, movement),
                };
                match target {
                    Some(oid) => {
                        self.select_commit(oid.to_string());
                    },
                    None => {},
                }
            },
            None => {},
        }
        if keys.toggle {
            self.detail_expanded = !self.detail_expanded;
        }
    }
}


} // verus!
