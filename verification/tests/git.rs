use llnzy::git::{
    branch_label, commit_oid_after_move, filtered_commits, git_error_title, short_display,
    CommitDetail, GitCommitNode, GitError, GitErrorKind, GitSelectionMove, GitSnapshot,
};
use llnzy::git_state::{
    log_key_movement, DetailEvent, DetailRequest, GitUiState, LogKeys, ReadmeOutcome,
    RefreshEvent, RefreshRequest,
};

fn refresh_request(id: u64, candidate: &str) -> RefreshRequest {
    RefreshRequest {
        id,
        candidate: candidate.to_string(),
    }
}

fn detail_request(id: u64, repo_root: &str, oid: &str) -> DetailRequest {
    DetailRequest {
        id,
        repo_root: repo_root.to_string(),
        oid: oid.to_string(),
    }
}

fn snapshot(repo_root: &str, commits: &[&str]) -> GitSnapshot {
    GitSnapshot {
        repo_root: repo_root.to_string(),
        commits: commits
            .iter()
            .map(|oid| GitCommitNode {
                oid: (*oid).to_string(),
                short_oid: (*oid).to_string(),
                ..GitCommitNode::default()
            })
            .collect(),
        ..GitSnapshot::default()
    }
}

fn commit(oid: &str, summary: &str, author: &str) -> GitCommitNode {
    GitCommitNode {
        oid: oid.to_string(),
        short_oid: short_display(oid),
        summary: summary.to_string(),
        author_name: author.to_string(),
        ..Default::default()
    }
}

#[test]
fn refresh_result_identity_requires_latest_request() {
    let current = refresh_request(2, "/tmp/repo-a");
    let mut state = GitUiState {
        refresh_requested: Some(current.clone()),
        ..GitUiState::default()
    };

    assert!(state.refresh_result_is_current(&current));
    assert!(!state.refresh_result_is_current(&refresh_request(1, "/tmp/repo-a")));
    assert!(!state.refresh_result_is_current(&refresh_request(2, "/tmp/repo-b")));

    state.refresh_requested = None;
    assert!(!state.refresh_result_is_current(&current));
}

#[test]
fn detail_result_identity_requires_selected_requested_commit_and_repo() {
    let current = detail_request(7, "/tmp/repo-a", "abc123");
    let mut state = GitUiState {
        repo_root: Some("/tmp/repo-a".to_string()),
        selected_commit: Some("abc123".to_string()),
        detail_requested: Some(current.clone()),
        ..GitUiState::default()
    };

    assert!(state.detail_result_is_current(&current));
    assert!(!state.detail_result_is_current(&detail_request(6, "/tmp/repo-a", "abc123")));
    assert!(!state.detail_result_is_current(&detail_request(7, "/tmp/repo-b", "abc123")));
    assert!(!state.detail_result_is_current(&detail_request(7, "/tmp/repo-a", "def456")));

    state.selected_commit = Some("def456".to_string());
    assert!(!state.detail_result_is_current(&current));
}

#[test]
fn stale_refresh_result_is_discarded_without_overwriting_current_state() {
    let stale = refresh_request(1, "/tmp/repo-a");
    let current = refresh_request(2, "/tmp/repo-b");

    let mut state = GitUiState {
        loading: true,
        awaiting_refresh: true,
        refresh_requested: Some(current.clone()),
        ..GitUiState::default()
    };

    state.poll_refresh(RefreshEvent::Message(stale, Ok(snapshot("/tmp/repo-a", &["old"]))));
    assert!(state.loading);
    assert!(state.snapshot.is_none());
    assert!(state.error.is_none());

    state.poll_refresh(RefreshEvent::Message(current, Ok(snapshot("/tmp/repo-b", &["new"]))));
    assert!(!state.loading);
    assert_eq!(state.repo_root, Some("/tmp/repo-b".to_string()));
    assert_eq!(state.selected_commit.as_deref(), Some("new"));
}

#[test]
fn disconnected_refresh_and_detail_set_stable_errors() {
    let mut state = GitUiState {
        loading: true,
        awaiting_refresh: true,
        refresh_requested: Some(refresh_request(1, "/tmp/repo")),
        snapshot: Some(snapshot("/tmp/repo", &["abc123"])),
        repo_root: Some("/tmp/repo".to_string()),
        selected_commit: Some("abc123".to_string()),
        selected_detail: Some(CommitDetail {
            oid: "abc123".to_string(),
            ..CommitDetail::default()
        }),
        detail_loading: true,
        detail_requested: Some(detail_request(2, "/tmp/repo", "abc123")),
        ..GitUiState::default()
    };

    state.poll_refresh(RefreshEvent::Disconnected);
    assert!(!state.loading);
    assert_eq!(
        state.error.as_deref(),
        Some("Git refresh stopped unexpectedly.")
    );
    assert!(state.snapshot.is_some());
    assert!(state.detail_loading);

    state.awaiting_detail = true;

    state.poll_detail(DetailEvent::Disconnected);
    assert!(!state.detail_loading);
    assert_eq!(
        state.detail_error.as_deref(),
        Some("Git detail loading stopped unexpectedly.")
    );
    assert!(state.selected_detail.is_some());
}

#[test]
fn stale_detail_result_after_selection_and_repo_change_is_discarded() {
    let stale = detail_request(1, "/tmp/repo-a", "old");
    let current = detail_request(2, "/tmp/repo-b", "new");

    let mut state = GitUiState {
        repo_root: Some("/tmp/repo-b".to_string()),
        selected_commit: Some("new".to_string()),
        detail_requested: Some(current.clone()),
        detail_loading: true,
        awaiting_detail: true,
        ..GitUiState::default()
    };

    state.poll_detail(DetailEvent::Message(
        stale,
        Ok(CommitDetail {
            oid: "old".to_string(),
            subject: "stale".to_string(),
        }),
    ));
    assert!(state.detail_loading);
    assert!(state.selected_detail.is_none());

    state.poll_detail(DetailEvent::Message(
        current,
        Ok(CommitDetail {
            oid: "new".to_string(),
            subject: "current".to_string(),
        }),
    ));
    assert!(!state.detail_loading);
    assert_eq!(
        state
            .selected_detail
            .as_ref()
            .map(|detail| detail.subject.as_str()),
        Some("current")
    );
}

#[test]
fn select_commit_cancels_in_flight_detail() {
    let mut state = GitUiState {
        repo_root: Some("/tmp/repo".to_string()),
        selected_commit: Some("old".to_string()),
        detail_requested: Some(detail_request(1, "/tmp/repo", "old")),
        detail_loading: true,
        awaiting_detail: true,
        selected_detail: Some(CommitDetail {
            oid: "old".to_string(),
            ..CommitDetail::default()
        }),
        detail_expanded: true,
        ..GitUiState::default()
    };

    state.select_commit("new".to_string());

    assert!(state.selected_detail.is_none());
    assert!(!state.awaiting_detail);
    assert!(!state.detail_loading);
    assert!(state.detail_requested.is_none());
    assert!(state.detail_error.is_none());
    assert!(!state.detail_expanded);
}

#[test]
fn repeat_refresh_to_same_candidate_only_accepts_latest_request() {
    let first = refresh_request(1, "/tmp/repo");
    let second = refresh_request(2, "/tmp/repo");
    let state = GitUiState {
        loading: true,
        refresh_requested: Some(second.clone()),
        ..GitUiState::default()
    };

    assert!(!state.refresh_result_is_current(&first));
    assert!(state.refresh_result_is_current(&second));
}

#[test]
fn filtered_commits_borrows_matching_commits() {
    let snapshot = GitSnapshot {
        commits: vec![
            commit("abc1234", "Add command palette", "Ada"),
            commit("def5678", "Fix terminal resize", "Linus"),
        ],
        ..Default::default()
    };

    let matches = filtered_commits(&snapshot, "terminal");

    assert_eq!(matches.len(), 1);
    assert_eq!(matches[0].oid, "def5678");
}

#[test]
fn commit_oid_after_move_tracks_filtered_commit_refs() {
    let snapshot = GitSnapshot {
        commits: vec![
            commit("aaa1111", "First", "Ada"),
            commit("bbb2222", "Second", "Ada"),
            commit("ccc3333", "Third", "Ada"),
        ],
        ..Default::default()
    };
    let commits = snapshot.commits.iter().collect::<Vec<_>>();

    assert_eq!(
        commit_oid_after_move(&commits, Some("bbb2222"), GitSelectionMove::Next),
        Some("ccc3333")
    );
    assert_eq!(
        commit_oid_after_move(&commits, Some("bbb2222"), GitSelectionMove::Previous),
        Some("aaa1111")
    );
}

#[test]
fn commit_moves_clamp_at_the_ends_and_start_at_the_top() {
    let snapshot = GitSnapshot {
        commits: vec![
            commit("aaa1111", "First", "Ada"),
            commit("bbb2222", "Second", "Ada"),
            commit("ccc3333", "Third", "Ada"),
        ],
        ..Default::default()
    };
    let commits = snapshot.commits.iter().collect::<Vec<_>>();
    assert_eq!(
        commit_oid_after_move(&commits, Some("ccc3333"), GitSelectionMove::Next),
        Some("ccc3333")
    );
    assert_eq!(
        commit_oid_after_move(&commits, Some("aaa1111"), GitSelectionMove::Previous),
        Some("aaa1111")
    );
    assert_eq!(
        commit_oid_after_move(&commits, Some("zzz"), GitSelectionMove::Next),
        Some("aaa1111")
    );
    assert_eq!(
        commit_oid_after_move(&commits, None, GitSelectionMove::Last),
        Some("ccc3333")
    );
    assert_eq!(
        commit_oid_after_move(&commits, Some("ccc3333"), GitSelectionMove::First),
        Some("aaa1111")
    );
    assert_eq!(commit_oid_after_move(&[], None, GitSelectionMove::First), None);
}

#[test]
fn filter_matches_author_oid_refs_and_trims() {
    let mut tagged = commit("abc1234", "Add command palette", "Ada");
    tagged.refs = vec!["origin/Main".to_string()];
    let snapshot = GitSnapshot {
        commits: vec![tagged, commit("def5678", "Fix terminal resize", "Linus")],
        ..Default::default()
    };
    assert_eq!(filtered_commits(&snapshot, "  linus ").len(), 1);
    assert_eq!(filtered_commits(&snapshot, "abc12")[0].oid, "abc1234");
    assert_eq!(filtered_commits(&snapshot, "ABC12").len(), 0);
    assert_eq!(filtered_commits(&snapshot, "main")[0].oid, "abc1234");
    assert_eq!(filtered_commits(&snapshot, "   ").len(), 2);
}

#[test]
fn labels_for_heads_and_errors() {
    assert_eq!(short_display("0123456789abcdef"), "0123456");
    assert_eq!(short_display("abc"), "abc");
    let mut snap = snapshot("/r", &[]);
    assert_eq!(branch_label(&snap), "no HEAD");
    snap.head_oid = Some("0123456789abcdef".to_string());
    assert_eq!(branch_label(&snap), "detached 0123456");
    snap.branch = Some("main".to_string());
    assert_eq!(branch_label(&snap), "main");
    assert_eq!(git_error_title(Some(GitErrorKind::GitMissing)), "Git is unavailable");
    assert_eq!(git_error_title(Some(GitErrorKind::NotRepository)), "No repository");
    assert_eq!(git_error_title(Some(GitErrorKind::BareRepository)), "Bare repository");
    assert_eq!(git_error_title(Some(GitErrorKind::CommandFailed)), "Git error");
    assert_eq!(git_error_title(None), "Git error");
}

#[test]
fn ensure_loaded_starts_one_refresh_per_candidate() {
    let mut state = GitUiState::default();
    let first = state.ensure_loaded("/tmp/repo").expect("a refresh starts");
    assert_eq!(first, refresh_request(1, "/tmp/repo"));
    assert!(state.loading);
    assert!(state.awaiting_refresh);
    assert_eq!(state.ensure_loaded("/tmp/repo"), None);

    let forced = state.refresh().expect("a forced refresh starts");
    assert_eq!(forced, refresh_request(2, "/tmp/repo"));
    assert!(!state.refresh_result_is_current(&first));
    assert!(state.refresh_result_is_current(&forced));

    let accepted = state.poll_refresh(RefreshEvent::Message(
        forced,
        Ok(snapshot("/tmp/repo", &["c1", "c2"])),
    ));
    assert!(accepted);
    assert_eq!(state.selected_commit.as_deref(), Some("c1"));
    assert!(!state.awaiting_refresh);

    let other = state.ensure_loaded("/tmp/other").expect("a new candidate loads");
    assert_eq!(other, refresh_request(3, "/tmp/other"));
    assert!(state.snapshot.is_none());
    assert!(state.selected_commit.is_none());
}

#[test]
fn refresh_keeps_a_selection_that_survives_and_failure_clears_all() {
    let mut state = GitUiState::default();
    let request = state.ensure_loaded("/tmp/repo").unwrap();
    state.poll_refresh(RefreshEvent::Message(request, Ok(snapshot("/tmp/repo", &["a", "b"]))));
    state.select_commit("b".to_string());
    let detail = state.ensure_detail_loaded().expect("detail is requested");
    assert_eq!(detail, detail_request(2, "/tmp/repo", "b"));
    assert_eq!(state.ensure_detail_loaded(), None);

    let again = state.refresh().unwrap();
    state.poll_refresh(RefreshEvent::Message(again, Ok(snapshot("/tmp/repo", &["c", "b"]))));
    assert_eq!(state.selected_commit.as_deref(), Some("b"));
    assert!(state.awaiting_detail);
    assert_eq!(state.detail_requested, Some(detail_request(2, "/tmp/repo", "b")));

    let failing = state.refresh().unwrap();
    state.poll_refresh(RefreshEvent::Message(
        failing,
        Err(GitError {
            kind: GitErrorKind::NotRepository,
            message: "not a git repository".to_string(),
        }),
    ));
    assert_eq!(state.error.as_deref(), Some("not a git repository"));
    assert_eq!(state.error_kind, Some(GitErrorKind::NotRepository));
    assert!(state.repo_root.is_none());
    assert!(state.selected_commit.is_none());
    assert!(!state.awaiting_detail);
}

#[test]
fn readme_search_runs_once_per_repository() {
    let mut state = GitUiState {
        repo_root: Some("/tmp/repo".to_string()),
        ..GitUiState::default()
    };
    assert_eq!(state.ensure_readme_loaded(), Some("/tmp/repo".to_string()));
    assert_eq!(state.ensure_readme_loaded(), None);
    state.finish_readme_load(ReadmeOutcome::Missing);
    assert_eq!(
        state.readme_error.as_deref(),
        Some("No README found in this repository.")
    );
    state.finish_readme_load(ReadmeOutcome::Found("# Hello".to_string()));
    assert_eq!(state.readme_text.as_deref(), Some("# Hello"));
    assert_eq!(llnzy::git_state::readme_candidates()[0], "README.md");
}

fn keys(up: bool, down: bool, home: bool, end: bool, toggle: bool) -> LogKeys {
    LogKeys {
        up,
        down,
        home,
        end,
        toggle,
    }
}

#[test]
fn log_keys_move_the_selection_and_toggle_the_detail() {
    assert_eq!(log_key_movement(keys(true, true, false, false, false)), Some(GitSelectionMove::Next));
    assert_eq!(log_key_movement(keys(true, false, true, true, false)), Some(GitSelectionMove::Last));
    assert_eq!(log_key_movement(keys(false, false, false, false, true)), None);

    let snap = snapshot("/tmp/repo", &["a", "b", "c"]);
    let commits = snap.commits.iter().collect::<Vec<_>>();
    let mut state = GitUiState {
        selected_commit: Some("a".to_string()),
        detail_expanded: true,
        ..GitUiState::default()
    };
    state.handle_log_keys(&commits, keys(false, true, false, false, false));
    assert_eq!(state.selected_commit.as_deref(), Some("b"));
    assert!(!state.detail_expanded);
    state.handle_log_keys(&commits, keys(false, false, false, false, true));
    assert_eq!(state.selected_commit.as_deref(), Some("b"));
    assert!(state.detail_expanded);
    state.handle_log_keys(&commits, keys(false, false, false, true, true));
    assert_eq!(state.selected_commit.as_deref(), Some("c"));
    assert!(state.detail_expanded);
    state.handle_log_keys(&[], keys(false, false, true, false, false));
    assert_eq!(state.selected_commit.as_deref(), Some("c"));
}

#[test]
fn refresh_always_issues_a_newer_request() {
    let mut state = GitUiState::default();
    let first = state.ensure_loaded("/tmp/repo").unwrap();
    let second = state.refresh().unwrap();
    assert!(second.id > first.id);
    assert_eq!(state.refresh_requested, Some(second.clone()));
    let third = state.refresh().unwrap();
    assert!(third.id > second.id);
    assert_eq!(third.candidate, "/tmp/repo");
}
