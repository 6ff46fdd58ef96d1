//! Health score of a repository: cleanliness (up to 40), sync (up to 40) and
//! branch state (up to 20).

use vstd::prelude::*;
use crate::status::{RepoStatus, opt_view};
use crate::text::{chars_of, contains, contains_exec, starts_with, starts_with_exec};

verus! {

/// A health score and its parts.
#[derive(Debug, Clone, Copy, PartialEq, Eq, Structural)]
pub struct HealthScore {
    pub total: u8,
    pub cleanliness: u8,
    pub sync_status: u8,
    pub branch_status: u8,
}

/// Modified plus untracked files, as far as the record knows them.
pub open spec fn change_total(r: RepoStatus) -> nat {
    match r.verbose {
        Some(v) => (v.modified_count + v.untracked_count) as nat,
        None => 0,
    }
}

pub open spec fn cleanliness_points(is_clean: bool, changes: nat) -> u8 {
    if is_clean || changes == 0 {
        40
    } else if changes <= 5 {
        30
    } else if changes <= 15 {
        20
    } else if changes <= 30 {
        10
    } else {
        5
    }
}

pub open spec fn sync_points(ahead: nat, behind: nat) -> u8 {
    let d = ahead + behind;
    if d == 0 {
        40
    } else if d <= 3 {
        30
    } else if d <= 10 {
        20
    } else if d <= 20 {
        10
    } else {
        5
    }
}

pub open spec fn branch_points(branch: Option<Seq<char>>) -> u8 {
    match branch {
        None => 5,
        Some(b) => if starts_with(b, "detached@"@) {
            5
        } else if contains(b, "(no commits)"@) {
            10
        } else {
            20
        },
    }
}

/// The score of a status record.
pub open spec fn health_of(r: RepoStatus) -> HealthScore {
    let c = cleanliness_points(r.is_clean, change_total(r));
    let s = sync_points(r.ahead as nat, r.behind as nat);
    let b = branch_points(opt_view(r.branch));
    HealthScore { total: (c + s + b) as u8, cleanliness: c, sync_status: s, branch_status: b }
}

/// Scores a status record. Pure: the score depends on the record alone.
pub fn calculate_health_score(repo: &RepoStatus) -> (r: HealthScore)
    ensures
        r == health_of(*repo),
        r.total == r.cleanliness + r.sync_status + r.branch_status,
        r.total <= 100,
{
    let cleanliness: u8 = if repo.is_clean {
        40
    } else {
        let (m, u) = match &repo.verbose {
            Some(v) => (v.modified_count, v.untracked_count),
            None => (0, 0),
        };
        if m > 30 || u > 30 {
            5
        } else {
            let t = m + u;
            if t == 0 {
                40
            } else if t <= 5 {
                30
            } else if t <= 15 {
                20
            } else if t <= 30 {
                10
            } else {
                5
            }
        }
    };
    let sync_status: u8 = if repo.ahead > 20 || repo.behind > 20 {
        5
    } else {
        let d = repo.ahead + repo.behind;
        if d == 0 {
            40
        } else if d <= 3 {
            30
        } else if d <= 10 {
            20
        } else if d <= 20 {
            10
        } else {
            5
        }
    };
    let branch_status: u8 = match &repo.branch {
        None => 5,
        Some(b) => {
            let cs = chars_of(b.as_str());
            let detached = chars_of("detached@");
            let unborn = chars_of("(no commits)");
            if starts_with_exec(&cs, &detached) {
                5
            } else if contains_exec(&cs, &unborn) {
                10
            } else {
                20
            }
        },
    };
    HealthScore {
        total: cleanliness + sync_status + branch_status,
        cleanliness,
        sync_status,
        branch_status,
    }
}

pub open spec fn sum_total(s: Seq<RepoStatus>) -> nat
    decreases s.len(),
{
    if s.len() == 0 { 0 } else { (sum_total(s.drop_last()) + health_of(s.last()).total) as nat }
}

pub open spec fn sum_cleanliness(s: Seq<RepoStatus>) -> nat
    decreases s.len(),
{
    if s.len() == 0 { 0 } else { (sum_cleanliness(s.drop_last()) + health_of(s.last()).cleanliness) as nat }
}

pub open spec fn sum_sync(s: Seq<RepoStatus>) -> nat
    decreases s.len(),
{
    if s.len() == 0 { 0 } else { (sum_sync(s.drop_last()) + health_of(s.last()).sync_status) as nat }
}

pub open spec fn sum_branch(s: Seq<RepoStatus>) -> nat
    decreases s.len(),
{
    if s.len() == 0 { 0 } else { (sum_branch(s.drop_last()) + health_of(s.last()).branch_status) as nat }
}

proof fn lemma_sums_bounded(s: Seq<RepoStatus>)
    ensures
        sum_total(s) <= 100 * s.len(),
        sum_cleanliness(s) <= 40 * s.len(),
        sum_sync(s) <= 40 * s.len(),
        sum_branch(s) <= 20 * s.len(),
    decreases s.len(),
{
    if s.len() > 0 {
        lemma_sums_bounded(s.drop_last());
    }
}

/// The average over several repositories: each part and the total are
/// averaged on their own, rounding down; `None` for no repositories.
pub fn average_health_score(repos: &Vec<RepoStatus>) -> (r: Option<HealthScore>)
    ensures
        repos@.len() == 0 <==> r is None,
        r is Some ==> r->0.total == sum_total(repos@) / repos@.len()
            && r->0.cleanliness == sum_cleanliness(repos@) / repos@.len()
            && r->0.sync_status == sum_sync(repos@) / repos@.len()
            && r->0.branch_status == sum_branch(repos@) / repos@.len(),
{
    let n = repos.len();
    if n == 0 {
        return None;
    }
    let mut total: u128 = 0;
    let mut clean: u128 = 0;
    let mut sync: u128 = 0;
    let mut branch: u128 = 0;
    let mut i: usize = 0;
    while i < n
        invariant
            n == repos@.len(),
            i <= n,
            total == sum_total(repos@.subrange(0, i as int)),
            clean == sum_cleanliness(repos@.subrange(0, i as int)),
            sync == sum_sync(repos@.subrange(0, i as int)),
            branch == sum_branch(repos@.subrange(0, i as int)),
            total <= 100 * i,
            clean <= 40 * i,
            sync <= 40 * i,
            branch <= 20 * i,
        decreases n - i,
    {
        let ghost next = repos@.subrange(0, i + 1);
        assert(next.drop_last() =~= repos@.subrange(0, i as int));
        let h = calculate_health_score(&repos[i]);
        assert(i <= usize::MAX);
        assert((i as u128) < 0x1_0000_0000_0000_0000u128);
        total = total + h.total as u128;
        clean = clean + h.cleanliness as u128;
        sync = sync + h.sync_status as u128;
        branch = branch + h.branch_status as u128;
        i = i + 1;
    }
    assert(repos@.subrange(0, n as int) =~= repos@);
    let nn = n as u128;
    proof {
        lemma_sums_bounded(repos@);
        assert(total / nn <= 100) by (nonlinear_arith)
            requires total <= 100 * nn, nn > 0;
        assert(clean / nn <= 40) by (nonlinear_arith)
            requires clean <= 40 * nn, nn > 0;
        assert(sync / nn <= 40) by (nonlinear_arith)
            requires sync <= 40 * nn, nn > 0;
        assert(branch / nn <= 20) by (nonlinear_arith)
            requires branch <= 20 * nn, nn > 0;
    }
    Some(HealthScore {
        total: (total / nn) as u8,
        cleanliness: (clean / nn) as u8,
        sync_status: (sync / nn) as u8,
        branch_status: (branch / nn) as u8,
    })
}

impl HealthScore {
    /// The label for the total.
    pub fn status(&self) -> (r: &'static str)
        ensures
            r@ == (if self.total >= 90 {
                "Excellent"@
            } else if self.total >= 70 {
                "Good"@
            } else if self.total >= 50 {
                "Fair"@
            } else if self.total >= 30 {
                "Poor"@
            } else {
                "Critical"@
            }),
    {
        if self.total >= 90 {
            "Excellent"
        } else if self.total >= 70 {
            "Good"
        } else if self.total >= 50 {
            "Fair"
        } else if self.total >= 30 {
            "Poor"
        } else {
            "Critical"
        }
    }

    /// A colored heart for the total.
    pub fn emoji(&self) -> (r: &'static str)
        ensures
            r@ == (if self.total >= 90 {
                "💚"@
            } else if self.total >= 70 {
                "💙"@
            } else if self.total >= 50 {
                "💛"@
            } else if self.total >= 30 {
                "🧡"@
            } else {
                "❤️"@
            }),
    {
        if self.total >= 90 {
            "💚"
        } else if self.total >= 70 {
            "💙"
        } else if self.total >= 50 {
            "💛"
        } else if self.total >= 30 {
            "🧡"
        } else {
            "❤️"
        }
    }
}

/// A record without modified or untracked files gets full cleanliness points.
pub proof fn lemma_no_changes_full_cleanliness(r: RepoStatus)
    ensures
        change_total(r) == 0 ==> health_of(r).cleanliness == 40,
        r.is_clean ==> health_of(r).cleanliness == 40,
{
}

/// Scoring the same record twice gives the same score.
pub proof fn lemma_health_idempotent(a: RepoStatus, b: RepoStatus)
    requires
        a == b,
    ensures
        health_of(a) == health_of(b),
{
}

} // verus!
