use git_nexus::discovery::{classify_entry, discover_roots, marker_root, EntryKind};
use git_nexus::hooks::GitHooks;

#[test]
fn classify_entries() {
    let ignore = vec!["node_modules".to_string(), "target".to_string()];
    assert_eq!(classify_entry(".git", true, &ignore), EntryKind::RepositoryMarker);
    assert_eq!(classify_entry("node_modules", true, &ignore), EntryKind::Pruned);
    assert_eq!(classify_entry("node_modules", false, &ignore), EntryKind::Other);
    assert_eq!(classify_entry("src", true, &ignore), EntryKind::Other);
    assert_eq!(classify_entry(".git", false, &ignore), EntryKind::RepositoryMarker);
}

#[test]
fn roots_are_parents_listed_once() {
    assert_eq!(marker_root("/ws/a/.git"), "/ws/a");
    let markers = vec!["/ws/a/.git".to_string(), "/ws/b/.git".to_string(), "/ws/a/.git".to_string()];
    let roots = discover_roots(&markers);
    assert_eq!(roots, vec!["/ws/a".to_string(), "/ws/b".to_string()]);
    assert!(discover_roots(&Vec::new()).is_empty());
}

#[test]
fn hooks_detection() {
    let names = vec!["pre-commit".to_string(), "commit-msg".to_string(), "pre-commit.sample".to_string()];
    let hooks = GitHooks::detect(true, &names).unwrap();
    assert!(hooks.pre_commit && hooks.commit_msg);
    assert!(!hooks.pre_push && !hooks.post_commit && !hooks.post_merge && !hooks.prepare_commit_msg);
    assert!(hooks.has_any());
    assert_eq!(hooks.active_hooks(), vec!["pre-commit", "commit-msg"]);
    assert!(GitHooks::detect(false, &names).is_none());
    let none = GitHooks::detect(true, &Vec::new()).unwrap();
    assert!(!none.has_any());
    assert!(none.active_hooks().is_empty());
}
