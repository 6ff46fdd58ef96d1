//! Remediation actions and the resolution state machine.
//!
//! The engine never talks to Git itself: it asks for one backend operation at
//! a time (`BackendRequest`), is told how it went (`BackendReply`), and
//! finishes with exactly one `ActionResult`.

use vstd::prelude::*;
use crate::text::{chars_of, join, join3, slice_chars, string_of};

verus! {

/// A remediation intent.
#[derive(Debug, Clone, PartialEq)]
pub enum Action {
    /// Stage all changes.
    StageAll,
    /// Commit everything that is staged, with the given message.
    CommitWip { message: String },
    /// Stash all uncommitted changes, untracked files included.
    Stash { message: Option<String> },
    /// Fetch the upstream and fast-forward.
    Pull,
    /// Push local commits (left to the user).
    Push,
    /// Create a branch at HEAD and switch to it.
    CreateBranch { name: String },
    /// Hard-reset to HEAD and remove untracked files (destructive).
    DiscardChanges,
    /// Pop the most recent stash.
    StashPop,
    /// Pull, then push.
    Sync,
}

/// An action with its texts as character sequences.
pub enum ActionView {
    StageAll,
    CommitWip { message: Seq<char> },
    Stash { message: Option<Seq<char>> },
    Pull,
    Push,
    CreateBranch { name: Seq<char> },
    DiscardChanges,
    StashPop,
    Sync,
}

impl View for Action {
    type V = ActionView;

    open spec fn view(&self) -> ActionView {
        match self {
            Action::StageAll => ActionView::StageAll,
            Action::CommitWip { message } => ActionView::CommitWip { message: message@ },
            Action::Stash { message } => ActionView::Stash {
                message: match message {
                    Some(m) => Some(m@),
                    None => None,
                },
            },
            Action::Pull => ActionView::Pull,
            Action::Push => ActionView::Push,
            Action::CreateBranch { name } => ActionView::CreateBranch { name: name@ },
            Action::DiscardChanges => ActionView::DiscardChanges,
            Action::StashPop => ActionView::StashPop,
            Action::Sync => ActionView::Sync,
        }
    }
}

pub open spec fn description_of(a: ActionView) -> Seq<char> {
    match a {
        ActionView::StageAll => "Stage all changes"@,
        ActionView::CommitWip { message } => "Create commit: "@ + message,
        ActionView::Stash { message } => match message {
            Some(m) => "Stash changes: "@ + m,
            None => "Stash changes"@,
        },
        ActionView::Pull => "Pull latest changes from remote"@,
        ActionView::Push => "Push local commits to remote"@,
        ActionView::CreateBranch { name } => "Create branch: "@ + name,
        ActionView::DiscardChanges => "Discard all uncommitted changes (DESTRUCTIVE)"@,
        ActionView::StashPop => "Pop most recent stash"@,
        ActionView::Sync => "Sync with remote (pull + push)"@,
    }
}

pub open spec fn command_of(a: ActionView) -> Seq<char> {
    match a {
        ActionView::StageAll => "git add ."@,
        ActionView::CommitWip { message } => "git commit -m \""@ + message + "\""@,
        ActionView::Stash { message } => match message {
            Some(m) => "git stash push -m \""@ + m + "\""@,
            None => "git stash"@,
        },
        ActionView::Pull => "git pull"@,
        ActionView::Push => "git push"@,
        ActionView::CreateBranch { name } => "git checkout -b "@ + name,
        ActionView::DiscardChanges => "git reset --hard && git clean -fd"@,
        ActionView::StashPop => "git stash pop"@,
        ActionView::Sync => "git pull && git push"@,
    }
}

impl Action {
    /// Only discarding changes cannot be undone.
    pub fn is_destructive(&self) -> (r: bool)
        ensures
            r <==> self@ is DiscardChanges,
    {
        match self {
            Action::DiscardChanges => true,
            _ => false,
        }
    }

    /// A sentence describing the action.
    pub fn description(&self) -> (r: String)
        ensures
            r@ == description_of(self@),
    {
        match self {
            Action::StageAll => "Stage all changes".to_owned(),
            Action::CommitWip { message } => join("Create commit: ", message.as_str()),
            Action::Stash { message } => match message {
                Some(m) => join("Stash changes: ", m.as_str()),
                None => "Stash changes".to_owned(),
            },
            Action::Pull => "Pull latest changes from remote".to_owned(),
            Action::Push => "Push local commits to remote".to_owned(),
            Action::CreateBranch { name } => join("Create branch: ", name.as_str()),
            Action::DiscardChanges => "Discard all uncommitted changes (DESTRUCTIVE)".to_owned(),
            Action::StashPop => "Pop most recent stash".to_owned(),
            Action::Sync => "Sync with remote (pull + push)".to_owned(),
        }
    }

    /// The equivalent git command line.
    pub fn git_command(&self) -> (r: String)
        ensures
            r@ == command_of(self@),
    {
        match self {
            Action::StageAll => "git add .".to_owned(),
            Action::CommitWip { message } => join3("git commit -m \"", message.as_str(), "\""),
            Action::Stash { message } => match message {
                Some(m) => join3("git stash push -m \"", m.as_str(), "\""),
                None => "git stash".to_owned(),
            },
            Action::Pull => "git pull".to_owned(),
            Action::Push => "git push".to_owned(),
            Action::CreateBranch { name } => join("git checkout -b ", name.as_str()),
            Action::DiscardChanges => "git reset --hard && git clean -fd".to_owned(),
            Action::StashPop => "git stash pop".to_owned(),
            Action::Sync => "git pull && git push".to_owned(),
        }
    }
}

/// The outcome of applying one action to one repository.
#[derive(Debug, Clone)]
pub struct ActionResult {
    pub success: bool,
    pub message: String,
    pub details: Option<String>,
}

pub struct ResultView {
    pub success: bool,
    pub message: Seq<char>,
    pub details: Option<Seq<char>>,
}

impl View for ActionResult {
    type V = ResultView;

    open spec fn view(&self) -> ResultView {
        ResultView {
            success: self.success,
            message: self.message@,
            details: match self.details {
                Some(d) => Some(d@),
                None => None,
            },
        }
    }
}

pub open spec fn ok_view(message: Seq<char>) -> ResultView {
    ResultView { success: true, message, details: None }
}

pub open spec fn ok_details_view(message: Seq<char>, details: Seq<char>) -> ResultView {
    ResultView { success: true, message, details: Some(details) }
}

pub open spec fn fail_view(message: Seq<char>) -> ResultView {
    ResultView { success: false, message, details: None }
}

impl ActionResult {
    pub fn success(message: String) -> (r: Self)
        ensures
            r@ == ok_view(message@),
    {
        ActionResult { success: true, message, details: None }
    }

    pub fn success_with_details(message: String, details: String) -> (r: Self)
        ensures
            r@ == ok_details_view(message@, details@),
    {
        ActionResult { success: true, message, details: Some(details) }
    }

    pub fn failure(message: String) -> (r: Self)
        ensures
            r@ == fail_view(message@),
    {
        ActionResult { success: false, message, details: None }
    }
}

/// The first seven characters of an object id (all of it when shorter).
pub open spec fn short_id(id: Seq<char>) -> Seq<char> {
    if id.len() >= 7 { id.subrange(0, 7) } else { id }
}

/// The first seven characters of an object id (all of it when shorter).
pub fn short_id_of(id: &str) -> (r: String)
    ensures
        r@ == short_id(id@),
{
    let cs = chars_of(id);
    if cs.len() >= 7 {
        let p = slice_chars(&cs, 0, 7);
        string_of(&p)
    } else {
        id.to_owned()
    }
}

/// An operation that the engine asks the Git backend to perform.
#[derive(Debug, Clone)]
pub enum BackendRequest {
    /// Open the repository.
    Open,
    /// Stage every path.
    StageAll,
    /// Write the index as a tree and commit it on HEAD as sole parent.
    Commit { message: String },
    /// Save a stash, untracked files included.
    StashSave { message: String },
    /// Fetch the upstream and fast-forward only.
    Pull,
    /// Report whether HEAD is a branch with an upstream (pushing itself is left to the user).
    CheckPush,
    /// Create a branch at HEAD and switch to it.
    CreateBranch { name: String },
    /// Hard-reset to HEAD and remove untracked files.
    HardResetAndClean,
    /// Pop the most recent stash.
    StashPop,
}

pub enum RequestView {
    Open,
    StageAll,
    Commit { message: Seq<char> },
    StashSave { message: Seq<char> },
    Pull,
    CheckPush,
    CreateBranch { name: Seq<char> },
    HardResetAndClean,
    StashPop,
}

impl View for BackendRequest {
    type V = RequestView;

    open spec fn view(&self) -> RequestView {
        match self {
            BackendRequest::Open => RequestView::Open,
            BackendRequest::StageAll => RequestView::StageAll,
            BackendRequest::Commit { message } => RequestView::Commit { message: message@ },
            BackendRequest::StashSave { message } => RequestView::StashSave { message: message@ },
            BackendRequest::Pull => RequestView::Pull,
            BackendRequest::CheckPush => RequestView::CheckPush,
            BackendRequest::CreateBranch { name } => RequestView::CreateBranch { name: name@ },
            BackendRequest::HardResetAndClean => RequestView::HardResetAndClean,
            BackendRequest::StashPop => RequestView::StashPop,
        }
    }
}

/// Whether a request changes the repository.
pub open spec fn is_mutation(r: RequestView) -> bool {
    !(r is Open || r is CheckPush)
}

/// What the backend reports about the last request.
#[derive(Debug, Clone)]
pub enum BackendReply {
    /// The repository was opened.
    Opened,
    /// The repository could not be opened.
    Unavailable { message: String },
    /// The backend rejected the operation.
    Failed { message: String },
    /// The operation completed.
    Done,
    /// A commit or stash was created with this object id.
    Created { id: String },
    /// HEAD is not a branch.
    NotOnBranch,
    /// The branch has no upstream.
    NoUpstream,
    /// Nothing to fetch.
    UpToDate,
    /// The branch was fast-forwarded.
    FastForwarded,
    /// The upstream diverged: a merge would be needed.
    NeedsMerge,
}

pub enum ReplyView {
    Opened,
    Unavailable { message: Seq<char> },
    Failed { message: Seq<char> },
    Done,
    Created { id: Seq<char> },
    NotOnBranch,
    NoUpstream,
    UpToDate,
    FastForwarded,
    NeedsMerge,
}

impl View for BackendReply {
    type V = ReplyView;

    open spec fn view(&self) -> ReplyView {
        match self {
            BackendReply::Opened => ReplyView::Opened,
            BackendReply::Unavailable { message } => ReplyView::Unavailable { message: message@ },
            BackendReply::Failed { message } => ReplyView::Failed { message: message@ },
            BackendReply::Done => ReplyView::Done,
            BackendReply::Created { id } => ReplyView::Created { id: id@ },
            BackendReply::NotOnBranch => ReplyView::NotOnBranch,
            BackendReply::NoUpstream => ReplyView::NoUpstream,
            BackendReply::UpToDate => ReplyView::UpToDate,
            BackendReply::FastForwarded => ReplyView::FastForwarded,
            BackendReply::NeedsMerge => ReplyView::NeedsMerge,
        }
    }
}

/// Where a resolution stands.
#[derive(Debug, Clone, Copy, PartialEq, Eq, Structural)]
pub enum Phase {
    Opening,
    Running,
    SyncPulling,
    SyncPushing { pulled_up_to_date: bool },
    Finished,
}

/// What the engine does next.
#[derive(Debug, Clone)]
pub enum Next {
    Ask(BackendRequest),
    Finish(ActionResult),
}

pub enum NextView {
    Ask(RequestView),
    Finish(ResultView),
}

impl View for Next {
    type V = NextView;

    open spec fn view(&self) -> NextView {
        match self {
            Next::Ask(r) => NextView::Ask(r@),
            Next::Finish(r) => NextView::Finish(r@),
        }
    }
}

/// The resolution of one action on one repository.
#[derive(Debug, Clone)]
pub struct Resolution {
    pub action: Action,
    pub dry_run: bool,
    pub phase: Phase,
}

pub open spec fn unexpected_view() -> ResultView {
    fail_view("Unexpected reply from the Git backend"@)
}

pub open spec fn stash_message_of(message: Option<Seq<char>>) -> Seq<char> {
    match message {
        Some(m) => m,
        None => "git-nexus auto-stash"@,
    }
}

/// The backend operation that carries out an action (a sync starts by pulling).
pub open spec fn request_of(a: ActionView) -> RequestView {
    match a {
        ActionView::StageAll => RequestView::StageAll,
        ActionView::CommitWip { message } => RequestView::Commit { message },
        ActionView::Stash { message } => RequestView::StashSave { message: stash_message_of(message) },
        ActionView::Pull => RequestView::Pull,
        ActionView::Push => RequestView::CheckPush,
        ActionView::CreateBranch { name } => RequestView::CreateBranch { name },
        ActionView::DiscardChanges => RequestView::HardResetAndClean,
        ActionView::StashPop => RequestView::StashPop,
        ActionView::Sync => RequestView::Pull,
    }
}

pub open spec fn pull_result_of(reply: ReplyView) -> ResultView {
    match reply {
        ReplyView::NotOnBranch => fail_view("Cannot pull: not on a branch"@),
        ReplyView::NoUpstream => fail_view("No upstream branch configured"@),
        ReplyView::UpToDate => ok_view("Already up to date"@),
        ReplyView::FastForwarded => ok_view("Pulled and fast-forwarded"@),
        ReplyView::NeedsMerge => fail_view("Cannot pull: merge required (not implemented)"@),
        ReplyView::Failed { message } => fail_view(message),
        _ => unexpected_view(),
    }
}

pub open spec fn push_result_of(reply: ReplyView) -> ResultView {
    match reply {
        ReplyView::NotOnBranch => fail_view("Cannot push: not on a branch"@),
        ReplyView::NoUpstream => fail_view("No upstream branch configured"@),
        ReplyView::Failed { message } => fail_view(message),
        _ => fail_view("Push requires authentication - please use 'git push' manually"@),
    }
}

/// The result of an action that takes a single backend operation.
pub open spec fn single_result_of(a: ActionView, reply: ReplyView) -> ResultView {
    match reply {
        ReplyView::Failed { message } => fail_view(message),
        _ => match a {
            ActionView::Pull => pull_result_of(reply),
            ActionView::Push => push_result_of(reply),
            ActionView::StageAll => if reply is Done {
                ok_view("Staged all changes"@)
            } else {
                unexpected_view()
            },
            ActionView::CommitWip { message } => match reply {
                ReplyView::Created { id } => ok_details_view(
                    "Created commit: "@ + message,
                    "Commit: "@ + short_id(id),
                ),
                _ => unexpected_view(),
            },
            ActionView::Stash { message } => match reply {
                ReplyView::Created { id } => ok_details_view("Stashed changes"@, "Stash: "@ + short_id(id)),
                _ => unexpected_view(),
            },
            ActionView::CreateBranch { name } => if reply is Done {
                ok_view("Created and switched to branch '"@ + name + "'"@)
            } else {
                unexpected_view()
            },
            ActionView::DiscardChanges => if reply is Done {
                ok_details_view("Discarded all changes"@, "⚠️  This action cannot be undone!"@)
            } else {
                unexpected_view()
            },
            ActionView::StashPop => if reply is Done {
                ok_view("Popped stash"@)
            } else {
                unexpected_view()
            },
            ActionView::Sync => unexpected_view(),
        },
    }
}

pub open spec fn dry_run_view(a: ActionView) -> ResultView {
    ok_details_view("Would execute: "@ + description_of(a), "Command: "@ + command_of(a))
}

/// One transition: the phase after `reply`, and what to do next.
pub open spec fn step_of(a: ActionView, dry_run: bool, phase: Phase, reply: ReplyView) -> (Phase, NextView) {
    match phase {
        Phase::Opening => match reply {
            ReplyView::Opened => if dry_run {
                (Phase::Finished, NextView::Finish(dry_run_view(a)))
            } else if a is Sync {
                (Phase::SyncPulling, NextView::Ask(RequestView::Pull))
            } else {
                (Phase::Running, NextView::Ask(request_of(a)))
            },
            ReplyView::Unavailable { message } => (Phase::Finished, NextView::Finish(fail_view(message))),
            ReplyView::Failed { message } => (Phase::Finished, NextView::Finish(fail_view(message))),
            _ => (Phase::Finished, NextView::Finish(unexpected_view())),
        },
        Phase::Running => (Phase::Finished, NextView::Finish(single_result_of(a, reply))),
        Phase::SyncPulling => {
            let pulled = pull_result_of(reply);
            if pulled.success {
                (
                    Phase::SyncPushing { pulled_up_to_date: reply is UpToDate },
                    NextView::Ask(RequestView::CheckPush),
                )
            } else {
                (Phase::Finished, NextView::Finish(pulled))
            }
        },
        Phase::SyncPushing { pulled_up_to_date } => match reply {
            ReplyView::Failed { message } => (Phase::Finished, NextView::Finish(fail_view(message))),
            _ => if pulled_up_to_date && push_result_of(reply).success {
                (Phase::Finished, NextView::Finish(ok_view("Synced with remote"@)))
            } else {
                (
                    Phase::Finished,
                    NextView::Finish(
                        ok_details_view("Pulled changes"@, "Push requires manual authentication"@),
                    ),
                )
            },
        },
        Phase::Finished => (Phase::Finished, NextView::Finish(unexpected_view())),
    }
}

fn unexpected() -> (r: ActionResult)
    ensures
        r@ == unexpected_view(),
{
    ActionResult::failure("Unexpected reply from the Git backend".to_owned())
}

fn pull_result(reply: &BackendReply) -> (r: ActionResult)
    ensures
        r@ == pull_result_of(reply@),
{
    match reply {
        BackendReply::NotOnBranch => ActionResult::failure("Cannot pull: not on a branch".to_owned()),
        BackendReply::NoUpstream => ActionResult::failure("No upstream branch configured".to_owned()),
        BackendReply::UpToDate => ActionResult::success("Already up to date".to_owned()),
        BackendReply::FastForwarded => ActionResult::success("Pulled and fast-forwarded".to_owned()),
        BackendReply::NeedsMerge => ActionResult::failure(
            "Cannot pull: merge required (not implemented)".to_owned(),
        ),
        BackendReply::Failed { message } => ActionResult::failure(message.clone()),
        _ => unexpected(),
    }
}

fn push_result(reply: &BackendReply) -> (r: ActionResult)
    ensures
        r@ == push_result_of(reply@),
{
    match reply {
        BackendReply::NotOnBranch => ActionResult::failure("Cannot push: not on a branch".to_owned()),
        BackendReply::NoUpstream => ActionResult::failure("No upstream branch configured".to_owned()),
        BackendReply::Failed { message } => ActionResult::failure(message.clone()),
        _ => ActionResult::failure(
            "Push requires authentication - please use 'git push' manually".to_owned(),
        ),
    }
}

fn single_result(action: &Action, reply: &BackendReply) -> (r: ActionResult)
    ensures
        r@ == single_result_of(action@, reply@),
{
    if let BackendReply::Failed { message } = reply {
        return ActionResult::failure(message.clone());
    }
    match action {
        Action::Pull => pull_result(reply),
        Action::Push => push_result(reply),
        Action::StageAll => match reply {
            BackendReply::Done => ActionResult::success("Staged all changes".to_owned()),
            _ => unexpected(),
        },
        Action::CommitWip { message } => match reply {
            BackendReply::Created { id } => ActionResult::success_with_details(
                join("Created commit: ", message.as_str()),
                join("Commit: ", short_id_of(id.as_str()).as_str()),
            ),
            _ => unexpected(),
        },
        Action::Stash { .. } => match reply {
            BackendReply::Created { id } => ActionResult::success_with_details(
                "Stashed changes".to_owned(),
                join("Stash: ", short_id_of(id.as_str()).as_str()),
            ),
            _ => unexpected(),
        },
        Action::CreateBranch { name } => match reply {
            BackendReply::Done => ActionResult::success(
                join3("Created and switched to branch '", name.as_str(), "'"),
            ),
            _ => unexpected(),
        },
        Action::DiscardChanges => match reply {
            BackendReply::Done => ActionResult::success_with_details(
                "Discarded all changes".to_owned(),
                "⚠️  This action cannot be undone!".to_owned(),
            ),
            _ => unexpected(),
        },
        Action::StashPop => match reply {
            BackendReply::Done => ActionResult::success("Popped stash".to_owned()),
            _ => unexpected(),
        },
        Action::Sync => unexpected(),
    }
}

/// The backend operation that carries out `action` (a sync starts by pulling).
pub fn request_for(action: &Action) -> (r: BackendRequest)
    ensures
        r@ == request_of(action@),
{
    match action {
        Action::StageAll => BackendRequest::StageAll,
        Action::CommitWip { message } => BackendRequest::Commit { message: message.clone() },
        Action::Stash { message } => BackendRequest::StashSave {
            message: match message {
                Some(m) => m.clone(),
                None => "git-nexus auto-stash".to_owned(),
            },
        },
        Action::Pull => BackendRequest::Pull,
        Action::Push => BackendRequest::CheckPush,
        Action::CreateBranch { name } => BackendRequest::CreateBranch { name: name.clone() },
        Action::DiscardChanges => BackendRequest::HardResetAndClean,
        Action::StashPop => BackendRequest::StashPop,
        Action::Sync => BackendRequest::Pull,
    }
}

/// The result of a dry run: what would be executed, and the command.
pub fn dry_run_result(action: &Action) -> (r: ActionResult)
    ensures
        r@ == dry_run_view(action@),
{
    ActionResult::success_with_details(
        join("Would execute: ", action.description().as_str()),
        join("Command: ", action.git_command().as_str()),
    )
}

impl Resolution {
    /// Begins resolving `action`; the first request is always to open the repository.
    pub fn start(action: Action, dry_run: bool) -> (r: (Resolution, BackendRequest))
        ensures
            r.0.action@ == action@,
            r.0.dry_run == dry_run,
            r.0.phase == Phase::Opening,
            r.1@ == RequestView::Open,
    {
        (Resolution { action, dry_run, phase: Phase::Opening }, BackendRequest::Open)
    }

    /// Takes the backend's reply to the last request.
    pub fn step(self, reply: &BackendReply) -> (r: (Resolution, Next))
        ensures
            r.0.action@ == self.action@,
            r.0.dry_run == self.dry_run,
            (r.0.phase, r.1@) == step_of(self.action@, self.dry_run, self.phase, reply@),
    {
        let Resolution { action, dry_run, phase } = self;
        let (phase2, next) = match phase {
            Phase::Opening => match reply {
                BackendReply::Opened => if dry_run {
                    (Phase::Finished, Next::Finish(dry_run_result(&action)))
                } else if let Action::Sync = action {
                    (Phase::SyncPulling, Next::Ask(BackendRequest::Pull))
                } else {
                    (Phase::Running, Next::Ask(request_for(&action)))
                },
                BackendReply::Unavailable { message } => (
                    Phase::Finished,
                    Next::Finish(ActionResult::failure(message.clone())),
                ),
                BackendReply::Failed { message } => (
                    Phase::Finished,
                    Next::Finish(ActionResult::failure(message.clone())),
                ),
                _ => (Phase::Finished, Next::Finish(unexpected())),
            },
            Phase::Running => (Phase::Finished, Next::Finish(single_result(&action, reply))),
            Phase::SyncPulling => {
                let pulled = pull_result(reply);
                if pulled.success {
                    let up = match reply {
                        BackendReply::UpToDate => true,
                        _ => false,
                    };
                    (Phase::SyncPushing { pulled_up_to_date: up }, Next::Ask(BackendRequest::CheckPush))
                } else {
                    (Phase::Finished, Next::Finish(pulled))
                }
            },
            Phase::SyncPushing { pulled_up_to_date } => match reply {
                BackendReply::Failed { message } => (
                    Phase::Finished,
                    Next::Finish(ActionResult::failure(message.clone())),
                ),
                _ => {
                    let pushed = push_result(reply);
                    if pulled_up_to_date && pushed.success {
                        (Phase::Finished, Next::Finish(ActionResult::success("Synced with remote".to_owned())))
                    } else {
                        (
                            Phase::Finished,
                            Next::Finish(ActionResult::success_with_details(
                                "Pulled changes".to_owned(),
                                "Push requires manual authentication".to_owned(),
                            )),
                        )
                    }
                },
            },
            Phase::Finished => (Phase::Finished, Next::Finish(unexpected())),
        };
        (Resolution { action, dry_run, phase: phase2 }, next)
    }
}

/// A dry run never asks for anything but opening the repository, so it cannot
/// change it; once the repository is open it finishes with a success that names
/// the command it would have run.
pub proof fn lemma_dry_run_never_mutates(a: ActionView, reply: ReplyView)
    ensures
        !is_mutation(RequestView::Open),
        step_of(a, true, Phase::Opening, reply).1 is Finish,
        reply is Opened ==> step_of(a, true, Phase::Opening, reply).1 == NextView::Finish(
            dry_run_view(a),
        ),
        reply is Opened ==> dry_run_view(a).success,
{
}

} // verus!
