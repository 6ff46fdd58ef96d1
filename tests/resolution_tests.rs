use git_nexus::resolution::{
    dry_run_result, request_for, Action, ActionResult, BackendReply, BackendRequest, Next, Phase,
    Resolution,
};

#[test]
fn test_action_is_destructive() {
    assert!(Action::DiscardChanges.is_destructive());
    assert!(!Action::StageAll.is_destructive());
    assert!(!Action::Stash { message: None }.is_destructive());
}

#[test]
fn test_action_description() {
    let action = Action::CommitWip { message: "WIP".to_string() };
    assert_eq!(action.description(), "Create commit: WIP");

    let action = Action::DiscardChanges;
    assert!(action.description().contains("DESTRUCTIVE"));
}

#[test]
fn test_action_git_command() {
    assert_eq!(Action::StageAll.git_command(), "git add .");
    assert_eq!(Action::CommitWip { message: "test".to_string() }.git_command(), "git commit -m \"test\"");
}

#[test]
fn test_action_result() {
    let result = ActionResult::success("Test success".to_string());
    assert!(result.success);
    assert_eq!(result.message, "Test success");

    let result = ActionResult::failure("Test failure".to_string());
    assert!(!result.success);
}

fn all_actions() -> Vec<Action> {
    vec![
        Action::StageAll,
        Action::CommitWip { message: "m".to_string() },
        Action::Stash { message: None },
        Action::Stash { message: Some("s".to_string()) },
        Action::Pull,
        Action::Push,
        Action::CreateBranch { name: "b".to_string() },
        Action::DiscardChanges,
        Action::StashPop,
        Action::Sync,
    ]
}

#[test]
fn only_discard_is_destructive() {
    for a in all_actions() {
        assert_eq!(a.is_destructive(), a == Action::DiscardChanges);
    }
}

fn finish(r: (Resolution, Next)) -> ActionResult {
    match r.1 {
        Next::Finish(res) => res,
        Next::Ask(req) => panic!("unexpected request {:?}", req),
    }
}

fn ask(r: &(Resolution, Next)) -> BackendRequest {
    match &r.1 {
        Next::Ask(req) => req.clone(),
        Next::Finish(res) => panic!("unexpected result {:?}", res),
    }
}

#[test]
fn dry_run_only_opens_and_succeeds() {
    for a in all_actions() {
        let (state, first) = Resolution::start(a.clone(), true);
        assert!(matches!(first, BackendRequest::Open));
        let res = finish(state.step(&BackendReply::Opened));
        assert!(res.success);
        assert_eq!(res.message, format!("Would execute: {}", a.description()));
        assert_eq!(res.details, Some(format!("Command: {}", a.git_command())));
    }
    let r = dry_run_result(&Action::StageAll);
    assert_eq!(r.message, "Would execute: Stage all changes");
}

#[test]
fn unavailable_repository_fails() {
    let (state, _) = Resolution::start(Action::Pull, false);
    let res = finish(state.step(&BackendReply::Unavailable { message: "Failed to open repository at /nope".to_string() }));
    assert!(!res.success);
    assert_eq!(res.message, "Failed to open repository at /nope");
}

#[test]
fn commit_reports_short_hash() {
    let (state, _) = Resolution::start(Action::CommitWip { message: "wip".to_string() }, false);
    let r = state.step(&BackendReply::Opened);
    assert!(matches!(ask(&r), BackendRequest::Commit { ref message } if message == "wip"));
    assert_eq!(r.0.phase, Phase::Running);
    let res = finish(r.0.step(&BackendReply::Created { id: "0123456789abcdef".to_string() }));
    assert!(res.success);
    assert_eq!(res.message, "Created commit: wip");
    assert_eq!(res.details, Some("Commit: 0123456".to_string()));
}

#[test]
fn stash_uses_default_message() {
    match request_for(&Action::Stash { message: None }) {
        BackendRequest::StashSave { message } => assert_eq!(message, "git-nexus auto-stash"),
        other => panic!("unexpected {:?}", other),
    }
}

#[test]
fn pull_outcomes() {
    let cases = vec![
        (BackendReply::UpToDate, true, "Already up to date"),
        (BackendReply::FastForwarded, true, "Pulled and fast-forwarded"),
        (BackendReply::NeedsMerge, false, "Cannot pull: merge required (not implemented)"),
        (BackendReply::NotOnBranch, false, "Cannot pull: not on a branch"),
        (BackendReply::NoUpstream, false, "No upstream branch configured"),
        (BackendReply::Failed { message: "network down".to_string() }, false, "network down"),
    ];
    for (reply, ok, msg) in cases {
        let (state, _) = Resolution::start(Action::Pull, false);
        let r = state.step(&BackendReply::Opened);
        assert!(matches!(ask(&r), BackendRequest::Pull));
        let res = finish(r.0.step(&reply));
        assert_eq!(res.success, ok);
        assert_eq!(res.message, msg);
    }
}

#[test]
fn push_always_fails() {
    let (state, _) = Resolution::start(Action::Push, false);
    let r = state.step(&BackendReply::Opened);
    assert!(matches!(ask(&r), BackendRequest::CheckPush));
    let res = finish(r.0.step(&BackendReply::Done));
    assert!(!res.success);
    assert_eq!(res.message, "Push requires authentication - please use 'git push' manually");
}

#[test]
fn sync_pulls_then_stops_on_failure() {
    let (state, _) = Resolution::start(Action::Sync, false);
    let r = state.step(&BackendReply::Opened);
    assert!(matches!(ask(&r), BackendRequest::Pull));
    let res = finish(r.0.step(&BackendReply::NeedsMerge));
    assert!(!res.success);

    let (state, _) = Resolution::start(Action::Sync, false);
    let r = state.step(&BackendReply::Opened);
    let r = r.0.step(&BackendReply::FastForwarded);
    assert!(matches!(ask(&r), BackendRequest::CheckPush));
    let res = finish(r.0.step(&BackendReply::Done));
    assert!(res.success);
    assert_eq!(res.message, "Pulled changes");
    assert_eq!(res.details, Some("Push requires manual authentication".to_string()));
}

#[test]
fn create_branch_and_discard() {
    let (state, _) = Resolution::start(Action::CreateBranch { name: "fix".to_string() }, false);
    let r = state.step(&BackendReply::Opened);
    let res = finish(r.0.step(&BackendReply::Done));
    assert_eq!(res.message, "Created and switched to branch 'fix'");

    let (state, _) = Resolution::start(Action::DiscardChanges, false);
    let r = state.step(&BackendReply::Opened);
    assert!(matches!(ask(&r), BackendRequest::HardResetAndClean));
    let res = finish(r.0.step(&BackendReply::Done));
    assert_eq!(res.message, "Discarded all changes");
}

#[test]
fn backend_failure_becomes_result() {
    let (state, _) = Resolution::start(Action::StashPop, false);
    let r = state.step(&BackendReply::Opened);
    let res = finish(r.0.step(&BackendReply::Failed { message: "no stash found".to_string() }));
    assert!(!res.success);
    assert_eq!(res.message, "no stash found");
}
