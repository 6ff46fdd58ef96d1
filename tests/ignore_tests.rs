use git_nexus::ignore::{default_ignore_patterns, should_ignore_entry, IgnorePatterns};

#[test]
fn test_simple_pattern_match() {
    let mut ignore = IgnorePatterns::new();
    ignore.add_pattern("node_modules".to_string());

    assert!(ignore.should_ignore("node_modules", true));
    assert!(ignore.should_ignore("src/node_modules", true));
    assert!(!ignore.should_ignore("src/modules", true));
}

#[test]
fn test_wildcard_pattern() {
    let mut ignore = IgnorePatterns::new();
    ignore.add_pattern("*.log".to_string());

    assert!(ignore.should_ignore("error.log", false));
    assert!(ignore.should_ignore("debug.log", false));
    assert!(!ignore.should_ignore("logfile.txt", false));
}

#[test]
fn test_directory_only_pattern() {
    let mut ignore = IgnorePatterns::new();
    ignore.add_pattern("build/".to_string());

    assert!(ignore.should_ignore("build", true));
    assert!(!ignore.should_ignore("build.txt", false));
}

#[test]
fn test_default_patterns() {
    let patterns = default_ignore_patterns();
    assert!(patterns.contains(&"node_modules".to_string()));
    assert!(patterns.contains(&"target".to_string()));
}

#[test]
fn test_negation_pattern() {
    let mut ignore = IgnorePatterns::new();
    ignore.add_pattern("*.log".to_string());
    ignore.add_pattern("!important.log".to_string());

    assert!(ignore.should_ignore("error.log", false));
}

#[test]
fn negation_after_positive_reincludes() {
    let mut ignore = IgnorePatterns::new();
    ignore.add_pattern("*.log".to_string());
    ignore.add_pattern("!important.log".to_string());
    assert!(!ignore.should_ignore("important.log", false));
}

#[test]
fn later_positive_overrides_negation() {
    let mut ignore = IgnorePatterns::new();
    ignore.add_pattern("!important.log".to_string());
    ignore.add_pattern("*.log".to_string());
    assert!(ignore.should_ignore("important.log", false));
}

#[test]
fn directory_pattern_never_matches_files() {
    let mut ignore = IgnorePatterns::new();
    ignore.add_pattern("build/".to_string());
    assert!(!ignore.should_ignore("build", false));
    assert!(ignore.should_ignore("src/build", true));
}

#[test]
fn anchored_pattern_matches_from_root() {
    let mut ignore = IgnorePatterns::new();
    ignore.add_pattern("/docs".to_string());
    assert!(ignore.should_ignore("docs/index.md", false));
    assert!(!ignore.should_ignore("src/docs", true));
}

#[test]
fn slash_pattern_is_substring_match() {
    let mut ignore = IgnorePatterns::new();
    ignore.add_pattern("out/gen".to_string());
    assert!(ignore.should_ignore("a/out/gen/b", true));
    assert!(!ignore.should_ignore("a/out/b", true));
}

#[test]
fn double_star_pattern() {
    let mut ignore = IgnorePatterns::new();
    ignore.add_pattern("logs**.txt".to_string());
    assert!(ignore.should_ignore("var/logs/app/x.txt", false));
    assert!(!ignore.should_ignore("var/logs/app/x.md", false));
}

#[test]
fn glob_interior_segments_in_order() {
    let mut ignore = IgnorePatterns::new();
    ignore.add_pattern("a*b*c".to_string());
    assert!(ignore.should_ignore("axxbyyc", false));
    assert!(!ignore.should_ignore("axxcyyb", false));
    assert!(!ignore.should_ignore("xab c", false));
}

#[test]
fn empty_rule_set_ignores_nothing() {
    let ignore = IgnorePatterns::default();
    assert!(!ignore.should_ignore("anything", true));
}

#[test]
fn git_directories_always_ignored() {
    let ignore = IgnorePatterns::new();
    assert!(should_ignore_entry("repo/.git", ".git", true, &ignore));
    assert!(!should_ignore_entry("repo/.git", ".git", false, &ignore));
    assert!(!should_ignore_entry("repo/src", "src", true, &ignore));
}

#[test]
fn parse_skips_comments_and_blank_lines() {
    let ignore = IgnorePatterns::parse("# comment\n\n  target  \r\n*.tmp\n");
    assert!(ignore.should_ignore("target", true));
    assert!(ignore.should_ignore("x.tmp", false));
    assert!(!ignore.should_ignore("# comment", false));
}

#[test]
fn from_repo_without_file_is_empty() {
    let ignore = IgnorePatterns::from_repo(None);
    assert!(!ignore.should_ignore("target", true));
    let ignore = IgnorePatterns::from_repo(Some("target\n"));
    assert!(ignore.should_ignore("target", true));
}
