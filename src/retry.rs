use vstd::prelude::*;

verus! {

/// How a retried action ends when its successive invocations succeed or fail
/// as `outcomes` says, counting from invocation `attempts`: the number of
/// invocations made, and whether the last one succeeded. After each failure
/// the action is invoked again while fewer than `max_retries` retries were
/// made (see `retry_after_failure`).
pub open spec fn retried_run(outcomes: Seq<bool>, attempts: nat, max_retries: nat) -> (nat, bool)
    decreases outcomes.len() - attempts,
{
    if attempts >= outcomes.len() {
        (attempts, false)
    } else if outcomes[attempts as int] {
        (attempts + 1, true)
    } else if attempts < max_retries {
        retried_run(outcomes, attempts + 1, max_retries)
    } else {
        (attempts + 1, false)
    }
}

/// An action whose first success comes at invocation `k + 1`, with `k` not
/// above `max_retries`, succeeds after exactly `k + 1` invocations; one that
/// keeps failing is invoked `max_retries + 1` times and fails.
pub proof fn lemma_retried_run(outcomes: Seq<bool>, k: nat, max_retries: nat)
    ensures
        k < outcomes.len() && outcomes[k as int] && k <= max_retries && (forall|j: int|
            0 <= j < k ==> !#[trigger] outcomes[j]) ==> retried_run(outcomes, 0, max_retries) == (
            k + 1,
            true,
        ),
        outcomes.len() > max_retries && (forall|j: int|
            0 <= j < outcomes.len() ==> !#[trigger] outcomes[j]) ==> retried_run(
            outcomes,
            0,
            max_retries,
        ) == (max_retries + 1, false),
{
    if k < outcomes.len() && outcomes[k as int] && k <= max_retries && (forall|j: int|
        0 <= j < k ==> !#[trigger] outcomes[j]) {
        lemma_run_from(outcomes, 0, k, max_retries);
    }
    if outcomes.len() > max_retries && (forall|j: int|
        0 <= j < outcomes.len() ==> !#[trigger] outcomes[j]) {
        lemma_fail_from(outcomes, 0, max_retries);
    }
}

proof fn lemma_run_from(outcomes: Seq<bool>, a: nat, k: nat, max_retries: nat)
    requires
        a <= k < outcomes.len(),
        outcomes[k as int],
        k <= max_retries,
        forall|j: int| 0 <= j < k ==> !#[trigger] outcomes[j],
    ensures
        retried_run(outcomes, a, max_retries) == (k + 1, true),
    decreases k - a,
{
    if a < k {
        assert(!outcomes[a as int]);
        lemma_run_from(outcomes, a + 1, k, max_retries);
    }
}

proof fn lemma_fail_from(outcomes: Seq<bool>, a: nat, max_retries: nat)
    requires
        a <= max_retries < outcomes.len(),
        forall|j: int| 0 <= j < outcomes.len() ==> !#[trigger] outcomes[j],
    ensures
        retried_run(outcomes, a, max_retries) == (max_retries + 1, false),
    decreases max_retries - a,
{
    assert(!outcomes[a as int]);
    if a < max_retries {
        lemma_fail_from(outcomes, a + 1, max_retries);
    }
}

/// The retry budget of a wrapped action: after each failure it says whether
/// to invoke the action again.
#[derive(Clone, Copy, Debug)]
pub struct RetryableAction {
    pub attempts: usize,
    pub max_retries: usize,
}

impl RetryableAction {
    /// A budget of `max_retries` retries, none used yet.
    pub fn new(max_retries: usize) -> (r: RetryableAction)
        ensures
            r.attempts == 0,
            r.max_retries == max_retries,
    {
        RetryableAction { attempts: 0, max_retries }
    }

    /// Called after a failed invocation: whether to invoke again. A retry is
    /// granted while fewer than `max_retries` have been made, and counted.
    pub fn retry_after_failure(&mut self) -> (again: bool)
        ensures
            again == (old(self).attempts < old(self).max_retries),
            final(self).max_retries == old(self).max_retries,
            final(self).attempts == if again {
                old(self).attempts + 1
            } else {
                old(self).attempts as int
            },
    {
        if self.attempts < self.max_retries {
            self.attempts = self.attempts + 1;
            true
        } else {
            false
        }
    }
}

} // verus!
