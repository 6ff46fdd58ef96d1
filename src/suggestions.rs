//! Suggestions: what to do about a repository, most urgent first.

use vstd::prelude::*;
use crate::resolution::{Action, ActionView};
use crate::status::{RepoStatus, opt_view};
use crate::text::{
    chars_of, decimal, decimal_string, join, join3, slice_chars, starts_with, starts_with_exec,
    string_of,
};

verus! {

/// How urgent a suggestion is; ordered from `Low` to `Critical`.
#[derive(Debug, Clone, Copy, PartialEq, Eq, PartialOrd, Ord, Structural)]
pub enum Priority {
    Low,
    Medium,
    High,
    Critical,
}

pub open spec fn rank(p: Priority) -> nat {
    match p {
        Priority::Low => 0,
        Priority::Medium => 1,
        Priority::High => 2,
        Priority::Critical => 3,
    }
}

impl Priority {
    /// The position in the order `Low < Medium < High < Critical`.
    pub fn rank(&self) -> (r: u8)
        ensures
            r == rank(*self),
    {
        match self {
            Priority::Low => 0,
            Priority::Medium => 1,
            Priority::High => 2,
            Priority::Critical => 3,
        }
    }
}

/// A suggestion for one repository.
#[derive(Debug, Clone)]
pub struct Suggestion {
    pub title: String,
    pub description: String,
    pub action: Action,
    pub priority: Priority,
    pub reason: String,
}

pub struct SuggestionView {
    pub title: Seq<char>,
    pub description: Seq<char>,
    pub action: ActionView,
    pub priority: Priority,
    pub reason: Seq<char>,
}

impl View for Suggestion {
    type V = SuggestionView;

    open spec fn view(&self) -> SuggestionView {
        SuggestionView {
            title: self.title@,
            description: self.description@,
            action: self.action@,
            priority: self.priority,
            reason: self.reason@,
        }
    }
}

pub open spec fn views(v: Seq<Suggestion>) -> Seq<SuggestionView> {
    v.map_values(|s: Suggestion| s@)
}

pub open spec fn modified_of(s: RepoStatus) -> usize {
    match s.verbose {
        Some(v) => v.modified_count,
        None => 0,
    }
}

pub open spec fn untracked_of(s: RepoStatus) -> usize {
    match s.verbose {
        Some(v) => v.untracked_count,
        None => 0,
    }
}

pub open spec fn stashes_of(s: RepoStatus) -> usize {
    match s.verbose {
        Some(v) => v.stash_count,
        None => 0,
    }
}

pub open spec fn is_detached(branch: Option<Seq<char>>) -> bool {
    match branch {
        Some(b) => starts_with(b, "detached@"@),
        None => false,
    }
}

pub open spec fn detached_hash(b: Seq<char>) -> Seq<char> {
    if starts_with(b, "detached@"@) { b.subrange(9, b.len() as int) } else { "unknown"@ }
}

pub open spec fn commit_view(m: usize, u: usize) -> SuggestionView {
    SuggestionView {
        title: "Commit your changes"@,
        description: "You have "@ + decimal(m as nat) + " modified and "@ + decimal(u as nat)
            + " untracked file(s)"@,
        action: ActionView::CommitWip { message: "WIP: Auto-commit by git-nexus"@ },
        priority: Priority::High,
        reason: "Uncommitted changes can be lost"@,
    }
}

pub open spec fn stash_view() -> SuggestionView {
    SuggestionView {
        title: "Stash your changes"@,
        description: "Save changes for later without committing"@,
        action: ActionView::Stash { message: Some("git-nexus auto-stash"@) },
        priority: Priority::Medium,
        reason: "Clean working directory temporarily"@,
    }
}

pub open spec fn discard_view() -> SuggestionView {
    SuggestionView {
        title: "Discard changes (destructive)"@,
        description: "⚠️  Permanently remove all uncommitted changes"@,
        action: ActionView::DiscardChanges,
        priority: Priority::Low,
        reason: "Use only if changes are not needed"@,
    }
}

pub open spec fn push_view(ahead: usize) -> SuggestionView {
    SuggestionView {
        title: "Push "@ + decimal(ahead as nat) + " commit(s) to remote"@,
        description: "Your local branch has unpushed commits"@,
        action: ActionView::Push,
        priority: Priority::Medium,
        reason: "Share your work with the team"@,
    }
}

pub open spec fn pull_view(behind: usize) -> SuggestionView {
    SuggestionView {
        title: "Pull "@ + decimal(behind as nat) + " commit(s) from remote"@,
        description: "Your local branch is behind the remote"@,
        action: ActionView::Pull,
        priority: Priority::High,
        reason: "Stay up to date with team changes"@,
    }
}

pub open spec fn stash_before_pull_view(behind: usize) -> SuggestionView {
    SuggestionView {
        title: "Stash changes before pulling"@,
        description: "You're "@ + decimal(behind as nat) + " commit(s) behind but have uncommitted changes"@,
        action: ActionView::Stash { message: Some("Before pull"@) },
        priority: Priority::High,
        reason: "Avoid merge conflicts"@,
    }
}

pub open spec fn sync_view(ahead: usize, behind: usize) -> SuggestionView {
    SuggestionView {
        title: "Sync with remote"@,
        description: "Diverged: "@ + decimal(ahead as nat) + " ahead, "@ + decimal(behind as nat)
            + " behind"@,
        action: ActionView::Sync,
        priority: Priority::Critical,
        reason: "Branches have diverged"@,
    }
}

pub open spec fn detached_view(branch: Seq<char>) -> SuggestionView {
    SuggestionView {
        title: "Create branch from detached HEAD"@,
        description: "Currently at commit "@ + detached_hash(branch),
        action: ActionView::CreateBranch { name: "from-detached-"@ + detached_hash(branch) },
        priority: Priority::Critical,
        reason: "Commits may be lost when switching branches"@,
    }
}

pub open spec fn pop_view(count: usize) -> SuggestionView {
    SuggestionView {
        title: "Pop stash (you have "@ + decimal(count as nat) + ")"@,
        description: "Restore previously stashed changes"@,
        action: ActionView::StashPop,
        priority: Priority::Low,
        reason: "Don't forget about stashed work"@,
    }
}

/// Commit, stash and discard, for a dirty repository.
pub open spec fn dirty_part(s: RepoStatus) -> Seq<SuggestionView> {
    if !s.is_clean {
        seq![commit_view(modified_of(s), untracked_of(s)), stash_view(), discard_view()]
    } else {
        seq![]
    }
}

pub open spec fn ahead_part(s: RepoStatus) -> Seq<SuggestionView> {
    if s.ahead > 0 { seq![push_view(s.ahead)] } else { seq![] }
}

/// Pull (or stash first when dirty), and sync when both ahead and behind.
pub open spec fn behind_part(s: RepoStatus) -> Seq<SuggestionView> {
    if s.behind > 0 {
        let first = if s.is_clean { pull_view(s.behind) } else { stash_before_pull_view(s.behind) };
        if s.ahead > 0 { seq![first, sync_view(s.ahead, s.behind)] } else { seq![first] }
    } else {
        seq![]
    }
}

pub open spec fn detached_part(s: RepoStatus) -> Seq<SuggestionView> {
    if is_detached(opt_view(s.branch)) { seq![detached_view(opt_view(s.branch)->0)] } else { seq![] }
}

pub open spec fn stash_part(s: RepoStatus) -> Seq<SuggestionView> {
    if stashes_of(s) > 0 { seq![pop_view(stashes_of(s))] } else { seq![] }
}

/// All applicable suggestions, in the order the rules produce them.
pub open spec fn generated(s: RepoStatus) -> Seq<SuggestionView> {
    dirty_part(s) + ahead_part(s) + behind_part(s) + detached_part(s) + stash_part(s)
}

/// The suggestions of priority `p`, in the order they were generated.
pub open spec fn with_priority(v: Seq<SuggestionView>, p: Priority) -> Seq<SuggestionView>
    decreases v.len(),
{
    if v.len() == 0 {
        v
    } else if v.last().priority == p {
        with_priority(v.drop_last(), p).push(v.last())
    } else {
        with_priority(v.drop_last(), p)
    }
}

/// A stable sort by descending priority.
pub open spec fn by_priority(v: Seq<SuggestionView>) -> Seq<SuggestionView> {
    with_priority(v, Priority::Critical) + with_priority(v, Priority::High) + with_priority(
        v,
        Priority::Medium,
    ) + with_priority(v, Priority::Low)
}

fn suggest_dirty_fixes(status: &RepoStatus) -> (r: Vec<Suggestion>)
    requires
        !status.is_clean,
    ensures
        views(r@) == dirty_part(*status),
{
    let (modified, untracked) = match &status.verbose {
        Some(v) => (v.modified_count, v.untracked_count),
        None => (0, 0),
    };
    let mut out: Vec<Suggestion> = Vec::new();
    let d1 = join3("You have ", decimal_string(modified).as_str(), " modified and ");
    let d2 = join3(d1.as_str(), decimal_string(untracked).as_str(), " untracked file(s)");
    out.push(Suggestion {
        title: "Commit your changes".to_owned(),
        description: d2,
        action: Action::CommitWip { message: "WIP: Auto-commit by git-nexus".to_owned() },
        priority: Priority::High,
        reason: "Uncommitted changes can be lost".to_owned(),
    });
    out.push(Suggestion {
        title: "Stash your changes".to_owned(),
        description: "Save changes for later without committing".to_owned(),
        action: Action::Stash { message: Some("git-nexus auto-stash".to_owned()) },
        priority: Priority::Medium,
        reason: "Clean working directory temporarily".to_owned(),
    });
    out.push(Suggestion {
        title: "Discard changes (destructive)".to_owned(),
        description: "⚠️  Permanently remove all uncommitted changes".to_owned(),
        action: Action::DiscardChanges,
        priority: Priority::Low,
        reason: "Use only if changes are not needed".to_owned(),
    });
    assert(views(out@) =~= dirty_part(*status));
    out
}

fn suggest_ahead_fixes(status: &RepoStatus) -> (r: Suggestion)
    ensures
        r@ == push_view(status.ahead),
{
    Suggestion {
        title: join3("Push ", decimal_string(status.ahead).as_str(), " commit(s) to remote"),
        description: "Your local branch has unpushed commits".to_owned(),
        action: Action::Push,
        priority: Priority::Medium,
        reason: "Share your work with the team".to_owned(),
    }
}

fn suggest_behind_fixes(status: &RepoStatus) -> (r: Vec<Suggestion>)
    requires
        status.behind > 0,
    ensures
        views(r@) == behind_part(*status),
{
    let mut out: Vec<Suggestion> = Vec::new();
    let n = decimal_string(status.behind);
    if status.is_clean {
        out.push(Suggestion {
            title: join3("Pull ", n.as_str(), " commit(s) from remote"),
            description: "Your local branch is behind the remote".to_owned(),
            action: Action::Pull,
            priority: Priority::High,
            reason: "Stay up to date with team changes".to_owned(),
        });
    } else {
        out.push(Suggestion {
            title: "Stash changes before pulling".to_owned(),
            description: join3("You're ", n.as_str(), " commit(s) behind but have uncommitted changes"),
            action: Action::Stash { message: Some("Before pull".to_owned()) },
            priority: Priority::High,
            reason: "Avoid merge conflicts".to_owned(),
        });
    }
    if status.ahead > 0 {
        let d1 = join3("Diverged: ", decimal_string(status.ahead).as_str(), " ahead, ");
        out.push(Suggestion {
            title: "Sync with remote".to_owned(),
            description: join3(d1.as_str(), n.as_str(), " behind"),
            action: Action::Sync,
            priority: Priority::Critical,
            reason: "Branches have diverged".to_owned(),
        });
    }
    assert(views(out@) =~= behind_part(*status));
    out
}

fn suggest_detached_head_fix(branch: &str) -> (r: Suggestion)
    ensures
        r@ == detached_view(branch@),
{
    let cs = chars_of(branch);
    let pre = chars_of("detached@");
    let hash = if starts_with_exec(&cs, &pre) {
        proof {
            reveal_strlit("detached@");
        }
        string_of(&slice_chars(&cs, 9, cs.len()))
    } else {
        "unknown".to_owned()
    };
    Suggestion {
        title: "Create branch from detached HEAD".to_owned(),
        description: join("Currently at commit ", hash.as_str()),
        action: Action::CreateBranch { name: join("from-detached-", hash.as_str()) },
        priority: Priority::Critical,
        reason: "Commits may be lost when switching branches".to_owned(),
    }
}

fn suggest_stash_action(count: usize) -> (r: Suggestion)
    ensures
        r@ == pop_view(count),
{
    Suggestion {
        title: join3("Pop stash (you have ", decimal_string(count).as_str(), ")"),
        description: "Restore previously stashed changes".to_owned(),
        action: Action::StashPop,
        priority: Priority::Low,
        reason: "Don't forget about stashed work".to_owned(),
    }
}

/// Appends `extra` to `out`.
fn append_all(out: &mut Vec<Suggestion>, extra: Vec<Suggestion>)
    ensures
        views(final(out)@) == views(old(out)@) + views(extra@),
{
    let ghost e = extra@;
    let mut extra = extra;
    out.append(&mut extra);
    assert(views(out@) =~= views(old(out)@) + views(e));
}

/// All applicable suggestions, in the order the rules produce them.
fn generate_unsorted(status: &RepoStatus) -> (r: Vec<Suggestion>)
    ensures
        views(r@) == generated(*status),
{
    let mut out: Vec<Suggestion> = Vec::new();
    if !status.is_clean {
        append_all(&mut out, suggest_dirty_fixes(status));
    }
    assert(views(out@) =~= dirty_part(*status));
    if status.ahead > 0 {
        out.push(suggest_ahead_fixes(status));
    }
    assert(views(out@) =~= dirty_part(*status) + ahead_part(*status));
    if status.behind > 0 {
        append_all(&mut out, suggest_behind_fixes(status));
    }
    assert(views(out@) =~= dirty_part(*status) + ahead_part(*status) + behind_part(*status));
    match &status.branch {
        Some(b) => {
            let cs = chars_of(b.as_str());
            let pre = chars_of("detached@");
            if starts_with_exec(&cs, &pre) {
                out.push(suggest_detached_head_fix(b.as_str()));
            }
        },
        None => {},
    }
    assert(views(out@) =~= dirty_part(*status) + ahead_part(*status) + behind_part(*status)
        + detached_part(*status));
    match &status.verbose {
        Some(v) => {
            if v.stash_count > 0 {
                out.push(suggest_stash_action(v.stash_count));
            }
        },
        None => {},
    }
    assert(views(out@) =~= generated(*status));
    out
}

/// The suggestions for a repository: every rule that applies contributes,
/// and the list is sorted by descending priority, ties in rule order. An
/// empty list means there is nothing to do.
pub fn generate_suggestions(status: &RepoStatus) -> (r: Vec<Suggestion>)
    ensures
        views(r@) == by_priority(generated(*status)),
{
    let mut pending = generate_unsorted(status);
    let ghost all = views(pending@);
    let mut critical: Vec<Suggestion> = Vec::new();
    let mut high: Vec<Suggestion> = Vec::new();
    let mut medium: Vec<Suggestion> = Vec::new();
    let mut low: Vec<Suggestion> = Vec::new();
    let ghost mut i: int = 0;
    assert(all.subrange(0, 0) =~= Seq::<SuggestionView>::empty());
    while pending.len() > 0
        invariant
            0 <= i <= all.len(),
            views(pending@) == all.subrange(i, all.len() as int),
            views(critical@) == with_priority(all.subrange(0, i), Priority::Critical),
            views(high@) == with_priority(all.subrange(0, i), Priority::High),
            views(medium@) == with_priority(all.subrange(0, i), Priority::Medium),
            views(low@) == with_priority(all.subrange(0, i), Priority::Low),
        decreases pending@.len(),
    {
        let ghost before = pending@;
        assert(views(before).len() == before.len());
        assert(i < all.len());
        assert(views(before)[0] == all.subrange(i, all.len() as int)[0]);
        let x = pending.remove(0);
        assert(views(before)[0] == x@);
        assert(all[i] == x@);
        let ghost next = all.subrange(0, i + 1);
        assert(next.drop_last() =~= all.subrange(0, i));
        assert(next.last() == x@);
        assert(pending@ =~= before.subrange(1, before.len() as int));
        assert forall|k: int| 0 <= k < pending@.len() implies views(pending@)[k] == all[i + 1 + k] by {
            assert(views(pending@)[k] == pending@[k]@);
            assert(pending@[k] == before[k + 1]);
            assert(views(before)[k + 1] == all.subrange(i, all.len() as int)[k + 1]);
        }
        assert(views(pending@) =~= all.subrange(i + 1, all.len() as int));
        let ghost (c0, h0, m0, l0) = (critical@, high@, medium@, low@);
        match x.priority {
            Priority::Critical => {
                critical.push(x);
                assert(views(critical@) =~= views(c0).push(x@));
            },
            Priority::High => {
                high.push(x);
                assert(views(high@) =~= views(h0).push(x@));
            },
            Priority::Medium => {
                medium.push(x);
                assert(views(medium@) =~= views(m0).push(x@));
            },
            Priority::Low => {
                low.push(x);
                assert(views(low@) =~= views(l0).push(x@));
            },
        }
        proof {
            i = i + 1;
        }
    }
    assert(all.subrange(0, i) =~= all);
    append_all(&mut critical, high);
    append_all(&mut critical, medium);
    append_all(&mut critical, low);
    critical
}

proof fn lemma_with_priority_all(v: Seq<SuggestionView>, p: Priority)
    ensures
        forall|k: int| 0 <= k < with_priority(v, p).len() ==> (#[trigger] with_priority(v, p)[k]).priority == p,
    decreases v.len(),
{
    if v.len() > 0 {
        lemma_with_priority_all(v.drop_last(), p);
    }
}

proof fn lemma_with_priority_none(v: Seq<SuggestionView>, p: Priority)
    requires
        v.len() == 0,
    ensures
        with_priority(v, p).len() == 0,
{
}

/// The suggestion list is sorted by non-increasing priority; a repository
/// that is clean, in sync, not detached and without stashes gets none.
pub proof fn lemma_suggestions_sorted(s: RepoStatus)
    ensures
        forall|i: int, j: int| 0 <= i < j < by_priority(generated(s)).len() ==>
            rank(#[trigger] by_priority(generated(s))[i].priority) >= rank(#[trigger] by_priority(generated(s))[j].priority),
        (s.is_clean && s.ahead == 0 && s.behind == 0 && !is_detached(opt_view(s.branch))
            && stashes_of(s) == 0) ==> by_priority(generated(s)).len() == 0,
{
    let g = generated(s);
    let c = with_priority(g, Priority::Critical);
    let h = with_priority(g, Priority::High);
    let m = with_priority(g, Priority::Medium);
    let l = with_priority(g, Priority::Low);
    lemma_with_priority_all(g, Priority::Critical);
    lemma_with_priority_all(g, Priority::High);
    lemma_with_priority_all(g, Priority::Medium);
    lemma_with_priority_all(g, Priority::Low);
    let r = by_priority(g);
    assert(r == c + h + m + l);
    assert forall|i: int| 0 <= i < r.len() implies rank(#[trigger] r[i].priority) == (if i < c.len() {
        3nat
    } else if i < c.len() + h.len() {
        2nat
    } else if i < c.len() + h.len() + m.len() {
        1nat
    } else {
        0nat
    }) by {
        if i < c.len() {
            assert(r[i] == c[i]);
        } else if i < c.len() + h.len() {
            assert(r[i] == h[i - c.len()]);
        } else if i < c.len() + h.len() + m.len() {
            assert(r[i] == m[i - c.len() - h.len()]);
        } else {
            assert(r[i] == l[i - c.len() - h.len() - m.len()]);
        }
    }
    if s.is_clean && s.ahead == 0 && s.behind == 0 && !is_detached(opt_view(s.branch)) && stashes_of(s) == 0 {
        assert(g =~= Seq::<SuggestionView>::empty());
        lemma_with_priority_none(g, Priority::Critical);
        lemma_with_priority_none(g, Priority::High);
        lemma_with_priority_none(g, Priority::Medium);
        lemma_with_priority_none(g, Priority::Low);
    }
}

/// Counts of issues across repositories.
#[derive(Debug, Clone, Copy, PartialEq, Eq, Structural)]
pub struct IssueSummary {
    pub total_repos: usize,
    pub clean_repos: usize,
    pub dirty_repos: usize,
    pub ahead_repos: usize,
    pub behind_repos: usize,
    pub detached_heads: usize,
    pub repos_with_stashes: usize,
    pub total_unpushed: usize,
    pub total_unpulled: usize,
}

/// Repositories in `s` that satisfy `f`.
pub open spec fn count_where(s: Seq<RepoStatus>, f: spec_fn(RepoStatus) -> bool) -> nat
    decreases s.len(),
{
    if s.len() == 0 { 0 } else { count_where(s.drop_last(), f) + if f(s.last()) { 1nat } else { 0nat } }
}

pub open spec fn sum_ahead(s: Seq<RepoStatus>) -> nat
    decreases s.len(),
{
    if s.len() == 0 { 0 } else { (sum_ahead(s.drop_last()) + s.last().ahead) as nat }
}

pub open spec fn sum_behind(s: Seq<RepoStatus>) -> nat
    decreases s.len(),
{
    if s.len() == 0 { 0 } else { (sum_behind(s.drop_last()) + s.last().behind) as nat }
}

proof fn lemma_count_where_bounded(s: Seq<RepoStatus>, f: spec_fn(RepoStatus) -> bool)
    ensures
        count_where(s, f) <= s.len(),
    decreases s.len(),
{
    if s.len() > 0 {
        lemma_count_where_bounded(s.drop_last(), f);
    }
}

proof fn lemma_sums_monotone(s: Seq<RepoStatus>, i: int)
    requires
        0 <= i <= s.len(),
    ensures
        sum_ahead(s.subrange(0, i)) <= sum_ahead(s),
        sum_behind(s.subrange(0, i)) <= sum_behind(s),
    decreases s.len() - i,
{
    if i < s.len() {
        lemma_sums_monotone(s, i + 1);
        assert(s.subrange(0, i + 1).drop_last() =~= s.subrange(0, i));
    } else {
        assert(s.subrange(0, i) =~= s);
    }
}

/// Counts issues over all repositories. The commit totals must fit in `usize`.
pub fn summarize_issues(repos: &Vec<RepoStatus>) -> (r: IssueSummary)
    requires
        sum_ahead(repos@) <= usize::MAX,
        sum_behind(repos@) <= usize::MAX,
    ensures
        r.total_repos == repos@.len(),
        r.clean_repos == count_where(repos@, |x: RepoStatus| x.is_clean),
        r.dirty_repos == count_where(repos@, |x: RepoStatus| !x.is_clean),
        r.ahead_repos == count_where(repos@, |x: RepoStatus| x.ahead > 0),
        r.behind_repos == count_where(repos@, |x: RepoStatus| x.behind > 0),
        r.detached_heads == count_where(repos@, |x: RepoStatus| is_detached(opt_view(x.branch))),
        r.repos_with_stashes == count_where(repos@, |x: RepoStatus| stashes_of(x) > 0),
        r.total_unpushed == sum_ahead(repos@),
        r.total_unpulled == sum_behind(repos@),
{
    let mut sm = IssueSummary {
        total_repos: 0,
        clean_repos: 0,
        dirty_repos: 0,
        ahead_repos: 0,
        behind_repos: 0,
        detached_heads: 0,
        repos_with_stashes: 0,
        total_unpushed: 0,
        total_unpulled: 0,
    };
    let pre = chars_of("detached@");
    let mut i: usize = 0;
    while i < repos.len()
        invariant
            i <= repos@.len(),
            pre@ == "detached@"@,
            sum_ahead(repos@) <= usize::MAX,
            sum_behind(repos@) <= usize::MAX,
            sm.total_repos == 0,
            sm.clean_repos == count_where(repos@.subrange(0, i as int), |x: RepoStatus| x.is_clean),
            sm.dirty_repos == count_where(repos@.subrange(0, i as int), |x: RepoStatus| !x.is_clean),
            sm.ahead_repos == count_where(repos@.subrange(0, i as int), |x: RepoStatus| x.ahead > 0),
            sm.behind_repos == count_where(repos@.subrange(0, i as int), |x: RepoStatus| x.behind > 0),
            sm.detached_heads == count_where(
                repos@.subrange(0, i as int),
                |x: RepoStatus| is_detached(opt_view(x.branch)),
            ),
            sm.repos_with_stashes == count_where(
                repos@.subrange(0, i as int),
                |x: RepoStatus| stashes_of(x) > 0,
            ),
            sm.total_unpushed == sum_ahead(repos@.subrange(0, i as int)),
            sm.total_unpulled == sum_behind(repos@.subrange(0, i as int)),
        decreases repos@.len() - i,
    {
        let ghost next = repos@.subrange(0, i + 1);
        assert(next.drop_last() =~= repos@.subrange(0, i as int));
        proof {
            lemma_sums_monotone(repos@, i + 1);
            lemma_count_where_bounded(next, |x: RepoStatus| x.is_clean);
            lemma_count_where_bounded(next, |x: RepoStatus| !x.is_clean);
            lemma_count_where_bounded(next, |x: RepoStatus| x.ahead > 0);
            lemma_count_where_bounded(next, |x: RepoStatus| x.behind > 0);
            lemma_count_where_bounded(next, |x: RepoStatus| is_detached(opt_view(x.branch)));
            lemma_count_where_bounded(next, |x: RepoStatus| stashes_of(x) > 0);
        }
        let repo = &repos[i];
        if repo.is_clean {
            sm.clean_repos = sm.clean_repos + 1;
        } else {
            sm.dirty_repos = sm.dirty_repos + 1;
        }
        if repo.ahead > 0 {
            sm.ahead_repos = sm.ahead_repos + 1;
        }
        sm.total_unpushed = sm.total_unpushed + repo.ahead;
        if repo.behind > 0 {
            sm.behind_repos = sm.behind_repos + 1;
        }
        sm.total_unpulled = sm.total_unpulled + repo.behind;
        match &repo.branch {
            Some(b) => {
                let cs = chars_of(b.as_str());
                if starts_with_exec(&cs, &pre) {
                    sm.detached_heads = sm.detached_heads + 1;
                }
            },
            None => {},
        }
        match &repo.verbose {
            Some(v) => {
                if v.stash_count > 0 {
                    sm.repos_with_stashes = sm.repos_with_stashes + 1;
                }
            },
            None => {},
        }
        i = i + 1;
    }
    assert(repos@.subrange(0, repos@.len() as int) =~= repos@);
    sm.total_repos = repos.len();
    sm
}

impl IssueSummary {
    /// Whether anything is dirty, ahead, behind or detached.
    pub fn has_issues(&self) -> (r: bool)
        ensures
            r == (self.dirty_repos > 0 || self.ahead_repos > 0 || self.behind_repos > 0
                || self.detached_heads > 0),
    {
        self.dirty_repos > 0 || self.ahead_repos > 0 || self.behind_repos > 0 || self.detached_heads > 0
    }
}

} // verus!
