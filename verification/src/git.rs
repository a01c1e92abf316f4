//! Repository data that the Git view shows, and what it derives from it.
use vstd::prelude::*;

use crate::text::{chars_of, contains_seq, find_exec, slice_chars, string_of, trim, trim_chars};

verus! {

/// Why loading a repository failed.
#[derive(Clone, Copy, Debug, PartialEq, Eq, Structural)]
pub enum GitErrorKind {
    GitMissing,
    NotRepository,
    BareRepository,
    CommandFailed,
}

#[derive(Clone, Debug, PartialEq, Eq)]
pub struct GitError {
    pub kind: GitErrorKind,
    pub message: String,
}

/// One commit of the log.
#[derive(Clone, Debug, PartialEq, Eq)]
pub struct GitCommitNode {
    pub oid: String,
    pub short_oid: String,
    pub summary: String,
    pub author_name: String,
    pub refs: Vec<String>,
}

impl Default for GitCommitNode {
    fn default() -> (c: GitCommitNode)
        ensures
            c.oid@.len() == 0,
            c.short_oid@.len() == 0,
            c.summary@.len() == 0,
            c.author_name@.len() == 0,
            c.refs@.len() == 0,
    {
        GitCommitNode {
            oid: String::new(),
            short_oid: String::new(),
            summary: String::new(),
            author_name: String::new(),
            refs: Vec::new(),
        }
    }
}

/// What a refresh loads of a repository.
#[derive(Clone, Debug, PartialEq, Eq)]
pub struct GitSnapshot {
    pub repo_root: String,
    pub branch: Option<String>,
    pub head_oid: Option<String>,
    pub commits: Vec<GitCommitNode>,
}

impl Default for GitSnapshot {
    fn default() -> (s: GitSnapshot)
        ensures
            s.repo_root@.len() == 0,
            s.branch is None,
            s.head_oid is None,
            s.commits@.len() == 0,
    {
        GitSnapshot { repo_root: String::new(), branch: None, head_oid: None, commits: Vec::new() }
    }
}

/// The detail of one commit.
#[derive(Clone, Debug, PartialEq, Eq)]
pub struct CommitDetail {
    pub oid: String,
    pub subject: String,
}

impl Default for CommitDetail {
    fn default() -> (d: CommitDetail)
        ensures
            d.oid@.len() == 0,
            d.subject@.len() == 0,
    {
        CommitDetail { oid: String::new(), subject: String::new() }
    }
}

/// How a key press moves the selection in the commit log.
#[derive(Clone, Copy, Debug, PartialEq, Eq, Structural)]
pub enum GitSelectionMove {
    Previous,
    Next,
    First,
    Last,
}

/// The heading shown for a failed load.
pub fn git_error_title(error_kind: Option<GitErrorKind>) -> (title: &'static str)
    ensures
        title@ == (match error_kind {
            Some(GitErrorKind::GitMissing) => "Git is unavailable"@,
            Some(GitErrorKind::NotRepository) => "No repository"@,
            Some(GitErrorKind::BareRepository) => "Bare repository"@,
            _ => "Git error"@,
        }),
{
    match error_kind {
        Some(GitErrorKind::GitMissing) => "Git is unavailable",
        Some(GitErrorKind::NotRepository) => "No repository",
        Some(GitErrorKind::BareRepository) => "Bare repository",
        Some(GitErrorKind::CommandFailed) | None => "Git error",
    }
}

pub open spec fn short_display_spec(oid: Seq<char>) -> Seq<char> {
    if oid.len() <= 7 {
        oid
    } else {
        oid.take(7)
    }
}

/// The first seven characters of an object id.
pub fn short_display(oid: &str) -> (r: String)
    ensures
        r@ == short_display_spec(oid@),
{
    let v = chars_of(oid);
    let n = if v.len() <= 7 {
        v.len()
    } else {
        7
    };
    let head = slice_chars(v.as_slice(), 0, n);
    assert(v@.subrange(0, v@.len() as int) == v@);
    string_of(head.as_slice())
}

pub open spec fn detached_prefix() -> Seq<char> {
    seq!['d', 'e', 't', 'a', 'c', 'h', 'e', 'd', ' ']
}

/// The branch name, else the detached head's short id, else "no HEAD".
pub open spec fn branch_label_spec(snapshot: GitSnapshot) -> Seq<char> {
    match snapshot.branch {
        Some(b) => b@,
        None => match snapshot.head_oid {
            Some(oid) => detached_prefix() + short_display_spec(oid@),
            None => "no HEAD"@,
        },
    }
}

/// The label of the checked-out head.
pub fn branch_label(snapshot: &GitSnapshot) -> (r: String)
    ensures
        r@ == branch_label_spec(*snapshot),
{
    match &snapshot.branch {
        Some(b) => b.clone(),
        None => match &snapshot.head_oid {
            Some(oid) => {
                let prefix = ['d', 'e', 't', 'a', 'c', 'h', 'e', 'd', ' '];
                assert(prefix@ == detached_prefix());
                let mut v: Vec<char> = Vec::new();
                crate::text::extend_chars(&mut v, prefix.as_slice());
                let short = short_display(oid.as_str());
                let sc = chars_of(short.as_str());
                crate::text::extend_chars(&mut v, sc.as_slice());
                string_of(v.as_slice())
            },
            None => "no HEAD".to_string(),
        },
    }
}

/// What `str::to_lowercase` gives (full Unicode lowercasing).
pub uninterp spec fn spec_to_lowercase(s: Seq<char>) -> Seq<char>;

/// `str::to_lowercase`. Its result is named by `spec_to_lowercase`. Of it
/// the contract states what the Unicode lowercase mapping that std applies
/// gives for ASCII text: `A`..`Z` become `a`..`z` and every other ASCII
/// character stays (so the empty string stays empty). What it gives for
/// other text is left to the name.
#[verifier::external_body]
pub(crate) fn to_lowercase(s: &str) -> (r: String)
    ensures
        r@ == spec_to_lowercase(s@),
        s@.len() == 0 ==> r@.len() == 0,
        crate::text::is_ascii_seq(s@) ==> r@ == crate::text::ascii_lower_seq(s@),
{
    s.to_lowercase()
}

pub open spec fn contains_ci_spec(haystack: Seq<char>, needle: Seq<char>) -> bool {
    contains_seq(spec_to_lowercase(haystack), spec_to_lowercase(needle))
}

/// Whether `needle` occurs in `haystack`, both lowercased.
pub fn contains_case_insensitive(haystack: &str, needle: &str) -> (b: bool)
    ensures
        b == contains_ci_spec(haystack@, needle@),
{
    let h = to_lowercase(haystack);
    let n = to_lowercase(needle);
    let hv = chars_of(h.as_str());
    let nv = chars_of(n.as_str());
    find_exec(hv.as_slice(), nv.as_slice()).is_some()
}

pub open spec fn any_ref_matches(refs: Seq<String>, filter: Seq<char>) -> bool {
    exists|i: int| 0 <= i < refs.len() && contains_ci_spec(#[trigger] refs[i]@, filter)
}

/// A commit matches a filter (already trimmed) when the filter is empty or
/// occurs in its summary, id (case-sensitively), author or one of its refs.
pub open spec fn commit_matches(c: GitCommitNode, filter: Seq<char>) -> bool {
    ||| filter.len() == 0
    ||| contains_ci_spec(c.summary@, filter)
    ||| contains_seq(c.oid@, filter)
    ||| contains_ci_spec(c.author_name@, filter)
    ||| any_ref_matches(c.refs@, filter)
}

/// The commits that match a filter, in log order.
pub open spec fn filtered_spec(commits: Seq<GitCommitNode>, filter: Seq<char>) -> Seq<
    GitCommitNode,
>
    decreases commits.len(),
{
    if commits.len() == 0 {
        Seq::empty()
    } else if commit_matches(commits.last(), filter) {
        filtered_spec(commits.drop_last(), filter).push(commits.last())
    } else {
        filtered_spec(commits.drop_last(), filter)
    }
}

/// An empty filter shows every commit, in log order.
pub proof fn law_empty_filter_shows_all(commits: Seq<GitCommitNode>)
    ensures
        filtered_spec(commits, Seq::empty()) == commits,
    decreases commits.len(),
{
    if commits.len() > 0 {
        law_empty_filter_shows_all(commits.drop_last());
        assert(commits.drop_last().push(commits.last()) =~= commits);
    }
}

/// Every commit the filter shows is a commit of the log that matches it.
pub proof fn law_filtered_commits_match(commits: Seq<GitCommitNode>, filter: Seq<char>, k: int)
    requires
        0 <= k < filtered_spec(commits, filter).len(),
    ensures
        commits.contains(filtered_spec(commits, filter)[k]),
        commit_matches(filtered_spec(commits, filter)[k], filter),
    decreases commits.len(),
{
    if commits.len() > 0 {
        let rest = filtered_spec(commits.drop_last(), filter);
        if k < rest.len() {
            law_filtered_commits_match(commits.drop_last(), filter, k);
            let j = choose|j: int| 0 <= j < commits.drop_last().len() && commits.drop_last()[j] == rest[k];
            assert(commits[j] == rest[k]);
        } else {
            assert(commits[commits.len() - 1] == commits.last());
        }
    }
}

fn any_ref_matches_exec(refs: &Vec<String>, filter: &str) -> (b: bool)
    ensures
        b == any_ref_matches(refs@, filter@),
{
    let mut i: usize = 0;
    while i < refs.len()
        invariant
            i <= refs.len(),
            forall|j: int| 0 <= j < i ==> !contains_ci_spec(#[trigger] refs@[j]@, filter@),
        decreases refs.len() - i,
    {
        if contains_case_insensitive(refs[i].as_str(), filter) {
            return true;
        }
        i += 1;
    }
    false
}

fn commit_matches_exec(c: &GitCommitNode, filter: &str) -> (b: bool)
    ensures
        b == commit_matches(*c, filter@),
{
    let fv = chars_of(filter);
    if fv.len() == 0 {
        return true;
    }
    if contains_case_insensitive(c.summary.as_str(), filter) {
        return true;
    }
    let ov = chars_of(c.oid.as_str());
    if find_exec(ov.as_slice(), fv.as_slice()).is_some() {
        return true;
    }
    if contains_case_insensitive(c.author_name.as_str(), filter) {
        return true;
    }
    any_ref_matches_exec(&c.refs, filter)
}

/// The commits of the snapshot that match `filter` (trimmed first).
pub fn filtered_commits<'a>(snapshot: &'a GitSnapshot, filter: &str) -> (r: Vec<&'a GitCommitNode>)
    ensures
        r@.map_values(|c: &GitCommitNode| *c) == filtered_spec(snapshot.commits@, trim(filter@)),
{
    let fv = chars_of(filter);
    let tv = trim_chars(fv.as_slice());
    let trimmed = string_of(tv.as_slice());
    let mut r: Vec<&'a GitCommitNode> = Vec::new();
    let mut i: usize = 0;
    while i < snapshot.commits.len()
        invariant
            i <= snapshot.commits.len(),
            trimmed@ == trim(filter@),
            r@.map_values(|c: &GitCommitNode| *c) == filtered_spec(
                snapshot.commits@.take(i as int),
                trim(filter@),
            ),
        decreases snapshot.commits.len() - i,
    {
        let c = &snapshot.commits[i];
        let ghost before = r@;
        assert(snapshot.commits@.take(i + 1).drop_last() == snapshot.commits@.take(i as int));
        if commit_matches_exec(c, trimmed.as_str()) {
            r.push(c);
            assert(r@.map_values(|c: &GitCommitNode| *c) =~= before.map_values(
                |c: &GitCommitNode| *c,
            ).push(*c));
        }
        i += 1;
    }
    assert(snapshot.commits@.take(snapshot.commits.len() as int) == snapshot.commits@);
    r
}

/// Index of the first commit whose id is `oid`.
pub open spec fn commit_position(commits: Seq<GitCommitNode>, oid: Seq<char>) -> Option<int> {
    if exists|i: int| 0 <= i < commits.len() && (#[trigger] commits[i]).oid@ == oid {
        Some(
            choose|i: int|
                0 <= i < commits.len() && commits[i].oid@ == oid && forall|j: int|
                    0 <= j < i ==> (#[trigger] commits[j]).oid@ != oid,
        )
    } else {
        None
    }
}

/// The index the selection moves to.
pub open spec fn move_target(len: int, current: Option<int>, movement: GitSelectionMove) -> int {
    match movement {
        GitSelectionMove::First => 0,
        GitSelectionMove::Last => len - 1,
        GitSelectionMove::Previous => match current {
            Some(i) => if i > 0 {
                i - 1
            } else {
                0
            },
            None => 0,
        },
        GitSelectionMove::Next => match current {
            Some(i) => if i + 1 < len - 1 {
                i + 1
            } else {
                len - 1
            },
            None => 0,
        },
    }
}

/// Moving the selection in a log of `len` commits from position `i`: up goes
/// to the commit just above (staying on the first), down to the one just
/// below (staying on the last), and the result is always a position of the
/// log.
pub proof fn law_move_target_steps_by_one(len: int, i: int)
    requires
        0 <= i < len,
    ensures
        i > 0 ==> move_target(len, Some(i), GitSelectionMove::Previous) == i - 1,
        i == 0 ==> move_target(len, Some(i), GitSelectionMove::Previous) == 0,
        i + 1 < len ==> move_target(len, Some(i), GitSelectionMove::Next) == i + 1,
        i + 1 == len ==> move_target(len, Some(i), GitSelectionMove::Next) == i,
        move_target(len, Some(i), GitSelectionMove::First) == 0,
        move_target(len, Some(i), GitSelectionMove::Last) == len - 1,
        forall|m: GitSelectionMove|
            0 <= #[trigger] move_target(len, Some(i), m) < len,
        forall|m: GitSelectionMove| 0 <= #[trigger] move_target(len, None, m) < len,
{
}

/// The commit at position `i` is found at `i` when no commit before it has
/// the same id.
pub proof fn lemma_commit_position_first(commits: Seq<GitCommitNode>, i: int)
    requires
        0 <= i < commits.len(),
        forall|j: int| 0 <= j < i ==> (#[trigger] commits[j]).oid@ != commits[i].oid@,
    ensures
        commit_position(commits, commits[i].oid@) == Some(i),
{
    let oid = commits[i].oid@;
    assert(exists|k: int| 0 <= k < commits.len() && (#[trigger] commits[k]).oid@ == oid);
    let k = choose|k: int|
        0 <= k < commits.len() && commits[k].oid@ == oid && forall|j: int|
            0 <= j < k ==> (#[trigger] commits[j]).oid@ != oid;
    assert(0 <= k < commits.len() && commits[k].oid@ == oid && forall|j: int|
        0 <= j < k ==> (#[trigger] commits[j]).oid@ != oid) by {
        assert(forall|j: int| 0 <= j < i ==> (#[trigger] commits[j]).oid@ != oid);
    }
    if k < i {
        assert(commits[k].oid@ != oid);
    }
    if k > i {
        assert(commits[i].oid@ != oid);
    }
}

/// In a log where the selected commit `commits[i]` appears first at
/// position `i`, pressing up selects the commit just above it and pressing
/// down the one just below it.
pub proof fn law_log_keys_select_neighbours(commits: Seq<GitCommitNode>, i: int)
    requires
        0 <= i < commits.len(),
        forall|j: int| 0 <= j < i ==> (#[trigger] commits[j]).oid@ != commits[i].oid@,
    ensures
        i > 0 ==> commits[move_target(
            commits.len() as int,
            commit_position(commits, commits[i].oid@),
            GitSelectionMove::Previous,
        )] == commits[i - 1],
        i + 1 < commits.len() ==> commits[move_target(
            commits.len() as int,
            commit_position(commits, commits[i].oid@),
            GitSelectionMove::Next,
        )] == commits[i + 1],
{
    lemma_commit_position_first(commits, i);
    law_move_target_steps_by_one(commits.len() as int, i);
}

/// Where the commit with id `selected` stands among `commits`, if it does.
fn position_of(commits: &[&GitCommitNode], selected: &str) -> (r: Option<usize>)
    ensures
        match r {
            Some(i) => i < commits@.len() && commit_position(
                commits@.map_values(|c: &GitCommitNode| *c),
                selected@,
            ) == Some(i as int),
            None => commit_position(commits@.map_values(|c: &GitCommitNode| *c), selected@) is None,
        },
{
    let ghost cs = commits@.map_values(|c: &GitCommitNode| *c);
    let sv = chars_of(selected);
    let mut i: usize = 0;
    while i < commits.len()
        invariant
            i <= commits.len(),
            cs == commits@.map_values(|c: &GitCommitNode| *c),
            sv@ == selected@,
            forall|j: int| 0 <= j < i ==> (#[trigger] cs[j]).oid@ != selected@,
        decreases commits.len() - i,
    {
        let ov = chars_of(commits[i].oid.as_str());
        if crate::text::chars_eq(ov.as_slice(), sv.as_slice()) {
            proof {
                let k = i as int;
                assert(cs[k].oid@ == selected@);
                assert(0 <= k < cs.len() && cs[k].oid@ == selected@ && forall|j: int|
                    0 <= j < k ==> (#[trigger] cs[j]).oid@ != selected@);
                let c = choose|c: int|
                    0 <= c < cs.len() && cs[c].oid@ == selected@ && forall|j: int|
                        0 <= j < c ==> (#[trigger] cs[j]).oid@ != selected@;
                if c < k {
                    assert(cs[c].oid@ != selected@);
                } else if c > k {
                    assert(cs[k].oid@ != selected@);
                }
            }
            return Some(i);
        }
        i += 1;
    }
    proof {
        assert(!exists|j: int| 0 <= j < cs.len() && (#[trigger] cs[j]).oid@ == selected@);
    }
    None
}

/// The id of the commit the selection moves to, among the shown commits.
pub fn commit_oid_after_move<'a>(
    commits: &'a [&'a GitCommitNode],
    selected_commit: Option<&str>,
    movement: GitSelectionMove,
) -> (r: Option<&'a str>)
    ensures
        commits@.len() == 0 ==> r is None,
        commits@.len() > 0 ==> ({
            let cs = commits@.map_values(|c: &GitCommitNode| *c);
            let current = match selected_commit {
                Some(s) => commit_position(cs, s@),
                None => None,
            };
            r matches Some(oid) && oid@ == cs[move_target(cs.len() as int, current, movement)].oid@
        }),
{
    if commits.len() == 0 {
        return None;
    }
    let current: Option<usize> = match selected_commit {
        Some(selected) => position_of(commits, selected),
        None => None,
    };
    let len = commits.len();
    let next: usize = match movement {
        GitSelectionMove::First => 0,
        GitSelectionMove::Last => len - 1,
        GitSelectionMove::Previous => match current {
            Some(i) => if i > 0 {
                i - 1
            } else {
                0
            },
            None => 0,
        },
        GitSelectionMove::Next => match current {
            Some(i) => if len >= 2 && i < len - 2 {
                i + 1
            } else {
                len - 1
            },
            None => 0,
        },
    };
    Some(commits[next].oid.as_str())
}

} // verus!
