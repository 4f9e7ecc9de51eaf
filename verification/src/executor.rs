//! The request executor's retry state machine: after each failed send
//! the run either goes round again (with a notice) or gives up; a
//! successful send emits exactly one record and ends the run.
use vstd::prelude::*;

verus! {

/// What the executor does after a failed send attempt.
#[derive(Debug, Clone, Copy, PartialEq, Eq, Structural)]
pub enum FailureStep {
    /// Attempts remain: report the failure as "Retrying" and go round.
    Retry,
    /// The budget is exhausted: report the final error, emit no record.
    Exhausted,
}

/// The retry rule: after `attempts_made` failed attempts (the one that
/// just failed included), retry while the count is within the budget.
pub open spec fn failure_step(attempts_made: u32, retry: u32) -> FailureStep {
    if attempts_made <= retry {
        FailureStep::Retry
    } else {
        FailureStep::Exhausted
    }
}

/// Decide what follows a failed attempt.
pub fn retry_decision(attempts_made: u32, retry: u32) -> (r: FailureStep)
    ensures
        r == failure_step(attempts_made, retry),
{
    if attempts_made <= retry {
        FailureStep::Retry
    } else {
        FailureStep::Exhausted
    }
}

/// Whether a fixed inter-attempt pause precedes this attempt: from the
/// second attempt on, when a delay is configured.
pub open spec fn pause_before(attempts_made: u32, delay_ms: u64) -> bool {
    attempts_made > 0 && delay_ms > 0
}

/// Decide whether to pause before the coming attempt.
pub fn should_pause_before_attempt(attempts_made: u32, delay_ms: u64) -> (r: bool)
    ensures
        r == pause_before(attempts_made, delay_ms),
{
    attempts_made > 0 && delay_ms > 0
}

/// A whole run folded over the attempt outcomes (true: the send
/// succeeded): how many records it emits and how many "Retrying"
/// notices it prints. A success emits one record and ends the run; a
/// failure within budget prints one notice and goes on; a failure past
/// the budget ends the run with nothing emitted.
pub open spec fn retry_run(outcomes: Seq<bool>, attempts_made: nat, retry: nat) -> (int, int)
    decreases outcomes.len(),
{
    if outcomes.len() == 0 {
        (0int, 0int)
    } else if outcomes[0] {
        (1int, 0int)
    } else if attempts_made + 1 <= retry {
        let rest = retry_run(outcomes.drop_first(), attempts_made + 1, retry);
        (rest.0, rest.1 + 1)
    } else {
        (0int, 0int)
    }
}

/// `k` failing outcomes followed by one success.
pub open spec fn fail_then_succeed(k: nat) -> Seq<bool> {
    Seq::new(k as nat, |i: int| false).push(true)
}

proof fn lemma_retry_run_fail_prefix(k: nat, attempts_made: nat, retry: nat)
    requires
        attempts_made + k <= retry,
    ensures
        retry_run(fail_then_succeed(k), attempts_made, retry) == (1int, k as int),
    decreases k,
{
    let outcomes = fail_then_succeed(k);
    if k == 0 {
        assert(outcomes[0]);
    } else {
        assert(!outcomes[0]);
        assert(outcomes.drop_first() =~= fail_then_succeed((k - 1) as nat));
        lemma_retry_run_fail_prefix((k - 1) as nat, attempts_made + 1, retry);
    }
}

/// Retry property: a send that fails `retry` times and then succeeds
/// produces exactly one record and exactly `retry` "Retrying" notices.
pub proof fn lemma_retry_fail_then_success(retry: nat)
    ensures
        retry_run(fail_then_succeed(retry), 0, retry) == (1int, retry as int),
{
    lemma_retry_run_fail_prefix(retry, 0, retry);
}

} // verus!
