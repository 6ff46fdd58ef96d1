use git_nexus::health::{average_health_score, calculate_health_score, HealthScore};
use git_nexus::status::{RepoStatus, VerboseStatus};

fn create_test_repo(is_clean: bool, ahead: usize, behind: usize, branch: &str) -> RepoStatus {
    RepoStatus {
        path: "/test".to_string(),
        is_clean,
        ahead,
        behind,
        branch: Some(branch.to_string()),
        verbose: Some(VerboseStatus {
            stash_count: 0,
            modified_count: if is_clean { 0 } else { 5 },
            untracked_count: 0,
            last_commit: None,
        }),
        hooks: None,
    }
}

#[test]
fn test_perfect_health() {
    let repo = create_test_repo(true, 0, 0, "main");
    let score = calculate_health_score(&repo);
    assert_eq!(score.total, 100);
    assert_eq!(score.status(), "Excellent");
}

#[test]
fn test_dirty_repo() {
    let repo = create_test_repo(false, 0, 0, "main");
    let score = calculate_health_score(&repo);
    assert!(score.total < 100);
    assert!(score.cleanliness < 40);
}

#[test]
fn test_ahead_behind() {
    let repo = create_test_repo(true, 5, 3, "main");
    let score = calculate_health_score(&repo);
    assert!(score.sync_status < 40);
}

#[test]
fn test_detached_head() {
    let repo = create_test_repo(true, 0, 0, "detached@abc123");
    let score = calculate_health_score(&repo);
    assert_eq!(score.branch_status, 5);
    assert!(score.total < 100);
}

#[test]
fn test_average_score() {
    let repos = vec![create_test_repo(true, 0, 0, "main"), create_test_repo(false, 2, 0, "develop")];
    let avg = average_health_score(&repos).unwrap();
    assert!(avg.total > 50);
    assert!(avg.total < 100);
}

#[test]
fn exact_sub_scores() {
    let repo = create_test_repo(false, 5, 3, "main");
    let score = calculate_health_score(&repo);
    assert_eq!(score, HealthScore { total: 70, cleanliness: 30, sync_status: 20, branch_status: 20 });
}

#[test]
fn cleanliness_steps() {
    let mut repo = create_test_repo(false, 0, 0, "main");
    let steps = [(0usize, 40u8), (1, 30), (5, 30), (6, 20), (15, 20), (16, 10), (30, 10), (31, 5)];
    for (n, want) in steps {
        repo.verbose.as_mut().unwrap().modified_count = n;
        assert_eq!(calculate_health_score(&repo).cleanliness, want);
    }
}

#[test]
fn sync_steps() {
    let steps = [(0usize, 40u8), (3, 30), (4, 20), (10, 20), (11, 10), (20, 10), (21, 5)];
    for (n, want) in steps {
        let repo = create_test_repo(true, n, 0, "main");
        assert_eq!(calculate_health_score(&repo).sync_status, want);
    }
    let huge = create_test_repo(true, usize::MAX, usize::MAX, "main");
    assert_eq!(calculate_health_score(&huge).sync_status, 5);
}

#[test]
fn branch_states() {
    let unborn = create_test_repo(true, 0, 0, "main (no commits)");
    assert_eq!(calculate_health_score(&unborn).branch_status, 10);
    let mut unknown = create_test_repo(true, 0, 0, "main");
    unknown.branch = None;
    assert_eq!(calculate_health_score(&unknown).branch_status, 5);
}

#[test]
fn clean_record_has_full_cleanliness() {
    let mut repo = create_test_repo(false, 0, 0, "main");
    repo.verbose.as_mut().unwrap().modified_count = 0;
    assert_eq!(calculate_health_score(&repo).cleanliness, 40);
}

#[test]
fn scoring_twice_gives_same_score() {
    let repo = create_test_repo(false, 7, 2, "detached@1234567");
    assert_eq!(calculate_health_score(&repo), calculate_health_score(&repo));
}

#[test]
fn average_floors_each_part() {
    let repos = vec![create_test_repo(true, 0, 0, "main"), create_test_repo(false, 2, 0, "develop")];
    let avg = average_health_score(&repos).unwrap();
    assert_eq!(avg, HealthScore { total: 90, cleanliness: 35, sync_status: 35, branch_status: 20 });
    let three = vec![
        create_test_repo(true, 0, 0, "main"),
        create_test_repo(true, 0, 0, "detached@abc"),
        create_test_repo(true, 0, 0, "detached@abd"),
    ];
    let avg = average_health_score(&three).unwrap();
    assert_eq!(avg.total, 90);
    assert_eq!(avg.branch_status, 10);
    let two = vec![create_test_repo(true, 0, 0, "main"), create_test_repo(true, 0, 0, "detached@abc")];
    let avg = average_health_score(&two).unwrap();
    assert_eq!(avg, HealthScore { total: 92, cleanliness: 40, sync_status: 40, branch_status: 12 });
}

#[test]
fn average_of_nothing_is_none() {
    assert!(average_health_score(&Vec::new()).is_none());
}

#[test]
fn status_labels() {
    let label = |t: u8| HealthScore { total: t, cleanliness: 0, sync_status: 0, branch_status: 0 }.status();
    assert_eq!(label(90), "Excellent");
    assert_eq!(label(89), "Good");
    assert_eq!(label(50), "Fair");
    assert_eq!(label(30), "Poor");
    assert_eq!(label(29), "Critical");
}
