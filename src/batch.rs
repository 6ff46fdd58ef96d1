//! Batch resolution: one result per repository, collected independently.
//! Each repository is resolved on its own (a dry run too), so one that cannot
//! be opened fails without affecting the others.

use vstd::prelude::*;
use crate::resolution::ActionResult;

verus! {

/// The result of resolving an action on one repository of a batch.
#[derive(Debug, Clone)]
pub struct BatchResult {
    pub repo_path: String,
    pub action_result: ActionResult,
}

/// Counts of a finished batch.
#[derive(Debug, Clone, Copy, PartialEq, Eq, Structural)]
pub struct BatchSummary {
    pub successful: usize,
    pub failed: usize,
}

pub open spec fn failures_in(rs: Seq<ActionResult>) -> nat
    decreases rs.len(),
{
    if rs.len() == 0 { 0 } else { failures_in(rs.drop_last()) + if rs.last().success { 0nat } else { 1nat } }
}

pub open spec fn outcomes_of(bs: Seq<BatchResult>) -> Seq<ActionResult> {
    bs.map_values(|b: BatchResult| b.action_result)
}

pub open spec fn batch_failures(bs: Seq<BatchResult>) -> nat {
    failures_in(outcomes_of(bs))
}

/// Tags each result with its repository, keeping both orders.
pub fn collect_batch(paths: Vec<String>, results: Vec<ActionResult>) -> (r: Vec<BatchResult>)
    requires
        paths@.len() == results@.len(),
    ensures
        r@.len() == paths@.len(),
        forall|i: int| 0 <= i < r@.len() ==> (#[trigger] r@[i]).repo_path == paths@[i]
            && r@[i].action_result == results@[i],
{
    let ghost ps = paths@;
    let ghost rs = results@;
    let mut paths = paths;
    let mut results = results;
    let mut out: Vec<BatchResult> = Vec::new();
    while paths.len() > 0
        invariant
            paths@.len() == results@.len(),
            out@.len() + paths@.len() == ps.len(),
            ps.len() == rs.len(),
            paths@ == ps.subrange(out@.len() as int, ps.len() as int),
            results@ == rs.subrange(out@.len() as int, rs.len() as int),
            forall|i: int| 0 <= i < out@.len() ==> (#[trigger] out@[i]).repo_path == ps[i]
                && out@[i].action_result == rs[i],
        decreases paths@.len(),
    {
        let ghost k = out@.len() as int;
        let p = paths.remove(0);
        let a = results.remove(0);
        assert(p == ps[k]);
        assert(a == rs[k]);
        out.push(BatchResult { repo_path: p, action_result: a });
        assert(paths@ =~= ps.subrange(out@.len() as int, ps.len() as int));
        assert(results@ =~= rs.subrange(out@.len() as int, rs.len() as int));
    }
    out
}

/// Counts successes and failures.
pub fn summarize_batch(results: &Vec<BatchResult>) -> (r: BatchSummary)
    ensures
        r.failed == batch_failures(results@),
        r.successful + r.failed == results@.len(),
{
    let mut failed: usize = 0;
    let mut i: usize = 0;
    while i < results.len()
        invariant
            i <= results@.len(),
            failed == failures_in(outcomes_of(results@).subrange(0, i as int)),
            failed <= i,
        decreases results@.len() - i,
    {
        let ghost next = outcomes_of(results@).subrange(0, i + 1);
        assert(next.drop_last() =~= outcomes_of(results@).subrange(0, i as int));
        if !results[i].action_result.success {
            failed = failed + 1;
        }
        i = i + 1;
    }
    assert(outcomes_of(results@).subrange(0, results@.len() as int) =~= outcomes_of(results@));
    BatchSummary { successful: results.len() - failed, failed }
}

/// A batch of K repositories whose outcomes hold exactly one failure yields
/// K results: exactly one failure and K - 1 successes.
pub proof fn lemma_one_failure_in_batch(paths: Seq<String>, outcomes: Seq<ActionResult>, batch: Seq<BatchResult>)
    requires
        paths.len() == outcomes.len(),
        batch.len() == paths.len(),
        forall|i: int| 0 <= i < batch.len() ==> (#[trigger] batch[i]).repo_path == paths[i]
            && batch[i].action_result == outcomes[i],
        failures_in(outcomes) == 1,
    ensures
        batch.len() == paths.len(),
        batch_failures(batch) == 1,
        batch.len() - batch_failures(batch) == paths.len() - 1,
{
    assert(outcomes_of(batch) =~= outcomes);
}

} // verus!
