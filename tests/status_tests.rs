use git_nexus::hooks::GitHooks;
use git_nexus::status::{
    analyze_repository, count_file_changes, current_branch, ChangeKind, CommitInfo, HeadState,
    RepoFacts,
};

fn none() -> ChangeKind {
    ChangeKind {
        index_new: false,
        index_modified: false,
        index_deleted: false,
        index_renamed: false,
        index_typechange: false,
        wt_new: false,
        wt_modified: false,
        wt_deleted: false,
        wt_renamed: false,
        wt_typechange: false,
        conflicted: false,
        unrecognized: false,
    }
}

fn facts(head: HeadState, changes: Vec<ChangeKind>) -> RepoFacts {
    RepoFacts {
        path: "/tmp/test_repo".to_string(),
        head,
        changes,
        divergence: None,
        stash_count: 0,
        last_commit: CommitInfo::from_parts(Some("Initial commit"), Some("Test User"), Some("2024-01-01 12:00:00".to_string()), "0123456789abcdef0123"),
        hooks: None,
    }
}

#[test]
fn test_count_file_changes_empty() {
    let (modified, untracked) = count_file_changes(&Vec::new());
    assert_eq!(modified, 0);
    assert_eq!(untracked, 0);
}

#[test]
fn test_count_file_changes_with_untracked() {
    let (modified, untracked) = count_file_changes(&vec![ChangeKind { wt_new: true, ..none() }]);
    assert_eq!(modified, 0);
    assert_eq!(untracked, 1);
}

#[test]
fn test_count_file_changes_with_modified() {
    let (modified, untracked) = count_file_changes(&vec![ChangeKind { wt_modified: true, ..none() }]);
    assert_eq!(modified, 1);
    assert_eq!(untracked, 0);
}

#[test]
fn counters_are_exclusive() {
    let changes = vec![
        ChangeKind { wt_new: true, index_modified: true, ..none() },
        ChangeKind { index_new: true, ..none() },
        ChangeKind { index_renamed: true, wt_deleted: true, ..none() },
        none(),
    ];
    assert_eq!(count_file_changes(&changes), (2, 1));
}

#[test]
fn conflicted_and_unrecognized_entries_are_modified() {
    let changes = vec![ChangeKind { conflicted: true, ..none() }, none()];
    assert_eq!(count_file_changes(&changes), (1, 0));
    let s = analyze_repository(facts(HeadState::Branch { name: "main".to_string() }, vec![none()]), true, false);
    assert!(s.is_clean);
    let s = analyze_repository(
        facts(HeadState::Branch { name: "main".to_string() }, vec![ChangeKind { unrecognized: true, ..none() }]),
        true,
        false,
    );
    assert!(!s.is_clean);
    assert_eq!(s.verbose.unwrap().modified_count, 1);
}

#[test]
fn test_get_current_branch() {
    let branch = current_branch(&HeadState::Branch { name: "main".to_string() });
    assert_eq!(branch, Some("main".to_string()));
}

#[test]
fn branch_labels() {
    assert_eq!(
        current_branch(&HeadState::Detached { target: "abcdef0123456789".to_string() }),
        Some("detached@abcdef0".to_string())
    );
    assert_eq!(
        current_branch(&HeadState::Unborn { head_ref: Some("refs/heads/main".to_string()) }),
        Some("main (no commits)".to_string())
    );
    assert_eq!(current_branch(&HeadState::Unborn { head_ref: None }), Some("(no commits)".to_string()));
    assert_eq!(current_branch(&HeadState::Unreadable), None);
}

#[test]
fn test_get_branch_divergence_no_remote() {
    let status = analyze_repository(facts(HeadState::Branch { name: "main".to_string() }, vec![]), false, false);
    assert_eq!(status.ahead, 0);
    assert_eq!(status.behind, 0);
}

#[test]
fn divergence_only_on_named_branch() {
    let mut f = facts(HeadState::Branch { name: "main".to_string() }, vec![]);
    f.divergence = Some((2, 1));
    let s = analyze_repository(f, false, false);
    assert_eq!((s.ahead, s.behind), (2, 1));
    let mut f = facts(HeadState::Detached { target: "abcdef0123".to_string() }, vec![]);
    f.divergence = Some((2, 1));
    let s = analyze_repository(f, false, false);
    assert_eq!((s.ahead, s.behind), (0, 0));
    let mut f = facts(HeadState::Unreadable, vec![]);
    f.divergence = Some((4, 4));
    let s = analyze_repository(f, false, false);
    assert_eq!((s.ahead, s.behind), (0, 0));
    assert!(s.branch.is_none());
}

#[test]
fn test_analyze_repository_clean() {
    let status = analyze_repository(facts(HeadState::Branch { name: "main".to_string() }, vec![]), false, false);
    assert!(status.is_clean);
    assert_eq!(status.ahead, 0);
    assert_eq!(status.behind, 0);
    assert!(status.branch.is_some());
    assert!(status.verbose.is_none());
}

#[test]
fn test_analyze_repository_dirty() {
    let status = analyze_repository(
        facts(HeadState::Branch { name: "main".to_string() }, vec![ChangeKind { wt_new: true, ..none() }]),
        false,
        false,
    );
    assert!(!status.is_clean);
}

#[test]
fn test_analyze_repository_verbose() {
    let status = analyze_repository(
        facts(HeadState::Branch { name: "main".to_string() }, vec![ChangeKind { wt_new: true, ..none() }]),
        true,
        false,
    );
    let v = status.verbose.expect("verbose details");
    assert_eq!(v.stash_count, 0);
    assert_eq!(v.modified_count, 0);
    assert_eq!(v.untracked_count, 1);
    assert!(v.last_commit.is_some());
}

#[test]
fn test_get_last_commit() {
    let commit = CommitInfo::from_parts(
        Some("Initial commit\n\nbody"),
        Some("Test User"),
        Some("2024-01-01 12:00:00".to_string()),
        "abc1234def5678",
    )
    .unwrap();
    assert_eq!(commit.message, "Initial commit");
    assert!(!commit.author.is_empty());
    assert!(!commit.timestamp.is_empty());
    assert_eq!(commit.hash.len(), 7);
    assert_eq!(commit.hash, "abc1234");
}

#[test]
fn commit_defaults() {
    let c = CommitInfo::from_parts(None, None, Some("t".to_string()), "abc").unwrap();
    assert_eq!(c.message, "");
    assert_eq!(c.author, "Unknown");
    assert_eq!(c.hash, "abc");
    let c = CommitInfo::from_parts(Some("line\r\nmore"), None, Some("t".to_string()), "abc").unwrap();
    assert_eq!(c.message, "line");
    assert!(CommitInfo::from_parts(Some("x"), None, None, "abc").is_none());
}

#[test]
fn commit_time_is_formatted() {
    let c = CommitInfo::from_commit(Some("msg"), Some("me"), 1_700_000_000, "0123456789").unwrap();
    assert_eq!(c.timestamp.len(), 19);
    assert_eq!(c.message, "msg");
}

#[test]
fn hooks_only_when_asked() {
    let mut f = facts(HeadState::Branch { name: "main".to_string() }, vec![]);
    f.hooks = GitHooks::detect(true, &vec!["pre-commit".to_string()]);
    let s = analyze_repository(f.clone(), false, false);
    assert!(s.hooks.is_none());
    let s = analyze_repository(f, false, true);
    assert!(s.hooks.unwrap().pre_commit);
}

#[test]
fn commit_times_in_range_always_format() {
    for secs in [0i64, -86_400, 1 << 36, -(1 << 37)] {
        assert!(CommitInfo::from_commit(Some("m"), None, secs, "abcdef0").is_some());
    }
}
