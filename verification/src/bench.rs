//! The bookkeeping of a benchmark: how calls are spread over tasks, how they are
//! named and how failures are counted.

use vstd::prelude::*;

use crate::text;

verus! {

/// How many calls each of `concurrency` tasks makes so that all of them make at
/// least `total`, and no task makes one more than needed.
pub fn calls_per_task(total: usize, concurrency: usize) -> (r: usize)
    requires
        concurrency > 0,
    ensures
        r * concurrency >= total,
        r > 0 ==> (r - 1) * concurrency < total,
        total == 0 ==> r == 0,
{
    let whole: usize = total / concurrency;
    let rest: usize = total % concurrency;
    assert(total == whole * concurrency + rest) by (nonlinear_arith)
        requires
            concurrency > 0,
            whole == total / concurrency,
            rest == total % concurrency,
    ;
    if rest > 0 {
        assert(whole < usize::MAX) by (nonlinear_arith)
            requires
                concurrency > 0,
                0 < rest < concurrency,
                total == whole * concurrency + rest,
                total <= usize::MAX,
        ;
        assert((whole + 1) * concurrency == whole * concurrency + concurrency)
            by (nonlinear_arith);
        whole + 1
    } else {
        assert(whole > 0 ==> (whole - 1) * concurrency == whole * concurrency - concurrency)
            by (nonlinear_arith);
        assert(total == 0 ==> whole == 0) by (nonlinear_arith)
            requires
                concurrency > 0,
                whole == total / concurrency,
        ;
        whole
    }
}

/// The failures of all tasks, where a task that was lost failed in all its calls.
pub open spec fn failures_of(outcomes: Seq<Option<usize>>, per_task: usize) -> nat
    decreases outcomes.len(),
{
    if outcomes.len() == 0 {
        0
    } else {
        failures_of(outcomes.drop_last(), per_task) + match outcomes.last() {
            Some(failures) => failures as nat,
            None => per_task as nat,
        }
    }
}

proof fn lemma_failures_grow(outcomes: Seq<Option<usize>>, per_task: usize, count: int)
    requires
        0 <= count <= outcomes.len(),
    ensures
        failures_of(outcomes.take(count), per_task) <= failures_of(outcomes, per_task),
    decreases outcomes.len(),
{
    if count == outcomes.len() {
        assert(outcomes.take(count) =~= outcomes);
    } else {
        assert(outcomes.drop_last().take(count) =~= outcomes.take(count));
        lemma_failures_grow(outcomes.drop_last(), per_task, count);
    }
}

/// Counts the failures of all tasks.
pub fn count_failures(outcomes: &Vec<Option<usize>>, per_task: usize) -> (r: usize)
    requires
        failures_of(outcomes@, per_task) <= usize::MAX,
    ensures
        r == failures_of(outcomes@, per_task),
{
    let mut failures: usize = 0;
    let mut i: usize = 0;
    assert(outcomes@.take(0) =~= Seq::<Option<usize>>::empty());
    while i < outcomes.len()
        invariant
            0 <= i <= outcomes@.len(),
            failures_of(outcomes@, per_task) <= usize::MAX,
            failures == failures_of(outcomes@.take(i as int), per_task),
        decreases outcomes@.len() - i,
    {
        proof {
            assert(outcomes@.take(i + 1).drop_last() =~= outcomes@.take(i as int));
            assert(outcomes@.take(i + 1).last() == outcomes@[i as int]);
            lemma_failures_grow(outcomes@, per_task, i + 1);
        }
        let more: usize = match outcomes[i] {
            Some(failed) => failed,
            None => per_task,
        };
        failures = failures + more;
        i = i + 1;
    }
    assert(outcomes@.take(i as int) =~= outcomes@);
    failures
}

/// How many of the calls of all tasks came to an end without failure.
pub fn completed_calls(concurrency: usize, per_task: usize, failures: usize) -> (r: usize)
    requires
        concurrency * per_task <= usize::MAX,
        failures <= concurrency * per_task,
    ensures
        r == concurrency * per_task - failures,
{
    concurrency * per_task - failures
}

/// The name of an asset that a sequential run creates.
pub fn sequential_id(run_id: &str, chaincode: &str, call: usize) -> (r: String)
    ensures
        r@ == run_id@ + "-"@ + chaincode@ + "-seq-"@ + text::decimal(call as nat),
{
    let mut id = text::triple(run_id, "-", chaincode);
    id.append("-seq-");
    id.append(text::decimal_text(call as u64).as_str());
    id
}

/// The name of an asset that a task of a concurrent run creates.
pub fn concurrent_id(run_id: &str, chaincode: &str, task: usize, call: usize) -> (r: String)
    ensures
        r@ == run_id@ + "-"@ + chaincode@ + "-c"@ + text::decimal(task as nat) + "-"@
            + text::decimal(call as nat),
{
    let mut id = text::triple(run_id, "-", chaincode);
    id.append("-c");
    id.append(text::decimal_text(task as u64).as_str());
    id.append("-");
    id.append(text::decimal_text(call as u64).as_str());
    id
}

} // verus!
