//! The exit code of a whole run: that of the first directory that failed.

use vstd::prelude::*;
use crate::status::{outcome_code, outcome_succeeded, ExecutionResult, ResultView};

verus! {

/// The exit code of the run that left `results`, in the order of the visit:
/// 0 where none failed, else the code of the first that did.
pub open spec fn run_outcome(results: Seq<ResultView>) -> i32
    decreases results.len(),
{
    if results.len() == 0 {
        0
    } else if !outcome_succeeded(results[0].outcome) {
        outcome_code(results[0].outcome)
    } else {
        run_outcome(results.drop_first())
    }
}

/// Whether every one of `results` is a success.
pub open spec fn all_succeeded(results: Seq<ResultView>) -> bool {
    forall|i: int| 0 <= i < results.len() ==> outcome_succeeded((#[trigger] results[i]).outcome)
}

/// Whether `results[k]` is the first failure among `results`.
pub open spec fn first_failure_at(results: Seq<ResultView>, k: int) -> bool {
    &&& 0 <= k < results.len()
    &&& !outcome_succeeded(results[k].outcome)
    &&& forall|i: int| 0 <= i < k ==> outcome_succeeded((#[trigger] results[i]).outcome)
}

/// A run in which every directory succeeded ends with 0.
pub proof fn lemma_all_success_is_zero(results: Seq<ResultView>)
    requires
        all_succeeded(results),
    ensures
        run_outcome(results) == 0,
    decreases results.len(),
{
    if results.len() > 0 {
        assert(outcome_succeeded(results[0].outcome));
        let rest = results.drop_first();
        assert forall|i: int| 0 <= i < rest.len() implies outcome_succeeded(
            (#[trigger] rest[i]).outcome,
        ) by {
            assert(rest[i] == results[i + 1]);
        }
        lemma_all_success_is_zero(rest);
    }
}

/// The first failure decides: the run ends with its code, whatever the
/// directories after it did, and that code is not 0.
pub proof fn lemma_first_failure_wins(results: Seq<ResultView>, k: int)
    requires
        first_failure_at(results, k),
    ensures
        run_outcome(results) == outcome_code(results[k].outcome),
        run_outcome(results) != 0,
    decreases results.len(),
{
    if k > 0 {
        assert(outcome_succeeded(results[0].outcome));
        let rest = results.drop_first();
        assert(rest[k - 1] == results[k]);
        assert forall|i: int| 0 <= i < k - 1 implies outcome_succeeded(
            (#[trigger] rest[i]).outcome,
        ) by {
            assert(rest[i] == results[i + 1]);
        }
        lemma_first_failure_wins(rest, k - 1);
    }
}

/// A run ends with 0 exactly if every directory succeeded.
pub proof fn lemma_zero_iff_all_succeeded(results: Seq<ResultView>)
    ensures
        run_outcome(results) == 0 <==> all_succeeded(results),
    decreases results.len(),
{
    if results.len() > 0 {
        let rest = results.drop_first();
        lemma_zero_iff_all_succeeded(rest);
        if outcome_succeeded(results[0].outcome) {
            if all_succeeded(rest) {
                assert forall|i: int| 0 <= i < results.len() implies outcome_succeeded(
                    (#[trigger] results[i]).outcome,
                ) by {
                    if i > 0 {
                        assert(rest[i - 1] == results[i]);
                    }
                }
            }
            if all_succeeded(results) {
                assert forall|i: int| 0 <= i < rest.len() implies outcome_succeeded(
                    (#[trigger] rest[i]).outcome,
                ) by {
                    assert(rest[i] == results[i + 1]);
                }
            }
        }
    }
}

/// The exit code of the run that left `results`, in the order of the visit.
pub fn aggregate(results: &Vec<ExecutionResult>) -> (code: i32)
    ensures
        code == run_outcome(results.deep_view()),
{
    let ghost all = results.deep_view();
    let mut i: usize = 0;
    assert(all.skip(0) == all);
    while i < results.len()
        invariant
            i <= results.len(),
            all == results.deep_view(),
            run_outcome(all) == run_outcome(all.skip(i as int)),
        decreases results.len() - i,
    {
        assert(all.skip(i as int)[0] == results[i as int]@);
        if !results[i].is_success() {
            return results[i].exit_code();
        }
        assert(all.skip(i as int).drop_first() == all.skip(i as int + 1));
        i += 1;
    }
    0
}

} // verus!
