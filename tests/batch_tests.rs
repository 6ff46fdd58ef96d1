use git_nexus::batch::{collect_batch, summarize_batch, BatchResult};
use git_nexus::resolution::{Action, ActionResult, BackendReply, Next, Resolution};

#[test]
fn test_batch_result_creation() {
    let result = BatchResult {
        repo_path: "/test/repo".to_string(),
        action_result: ActionResult { success: true, message: "Success".to_string(), details: None },
    };

    assert_eq!(result.repo_path, "/test/repo");
    assert!(result.action_result.success);
}

fn run(reply_to_open: BackendReply, reply_to_op: BackendReply, action: Action) -> ActionResult {
    let (state, _) = Resolution::start(action, false);
    let (state, next) = state.step(&reply_to_open);
    match next {
        Next::Finish(r) => r,
        Next::Ask(_) => match state.step(&reply_to_op).1 {
            Next::Finish(r) => r,
            Next::Ask(_) => panic!("more steps than expected"),
        },
    }
}

#[test]
fn one_failing_repository_among_many() {
    let paths: Vec<String> = (0..5).map(|i| format!("/repos/r{}", i)).collect();
    let mut results = Vec::new();
    for (i, _) in paths.iter().enumerate() {
        let open = if i == 2 {
            BackendReply::Unavailable { message: "invalid path".to_string() }
        } else {
            BackendReply::Opened
        };
        results.push(run(open, BackendReply::Done, Action::StageAll));
    }
    let batch = collect_batch(paths.clone(), results);
    assert_eq!(batch.len(), 5);
    let summary = summarize_batch(&batch);
    assert_eq!(summary.failed, 1);
    assert_eq!(summary.successful, 4);
    assert_eq!(batch[2].repo_path, "/repos/r2");
    assert!(!batch[2].action_result.success);
    for (b, p) in batch.iter().zip(paths.iter()) {
        assert_eq!(&b.repo_path, p);
    }
}

#[test]
fn dry_run_batch_fails_only_unopenable() {
    let paths: Vec<String> = (0..4).map(|i| format!("/repos/r{}", i)).collect();
    let mut results = Vec::new();
    for i in 0..paths.len() {
        let (state, _) = Resolution::start(Action::Pull, true);
        let open = if i == 1 {
            BackendReply::Unavailable { message: "Failed to open repository".to_string() }
        } else {
            BackendReply::Opened
        };
        match state.step(&open).1 {
            Next::Finish(r) => results.push(r),
            Next::Ask(_) => panic!("a dry run asks for nothing after opening"),
        }
    }
    let batch = collect_batch(paths, results);
    assert_eq!(batch.len(), 4);
    let summary = summarize_batch(&batch);
    assert_eq!(summary.failed, 1);
    assert_eq!(summary.successful, 3);
    assert!(!batch[1].action_result.success);
    assert_eq!(batch[0].action_result.message, "Would execute: Pull latest changes from remote");
}

#[test]
fn empty_batch() {
    let batch = collect_batch(Vec::new(), Vec::new());
    assert!(batch.is_empty());
    assert_eq!(summarize_batch(&batch).successful, 0);
}
