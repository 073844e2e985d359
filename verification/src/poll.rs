//! The poller: the decisions of a bounded wait on a condition that may become
//! true at any moment.
use vstd::prelude::*;

verus! {

/// How long a wait rests between two attempts, in milliseconds.
pub const TICK_MS: u64 = 1000;

/// The whole budget of one wait, in milliseconds.
pub const TIMEOUT_MS: u64 = 20000;

/// What a wait does after one attempt.
#[derive(Clone, Copy, Debug, PartialEq, Eq, Structural)]
pub enum PollDecision {
    /// The condition held in time: the wait is over.
    Succeeded,
    /// The condition did not hold yet: rest `after_ms`, then try again. The
    /// whole of the rest and the next attempt has `within_ms` left.
    Retry { after_ms: u64, within_ms: u64 },
    /// The budget is spent: the wait has failed.
    TimedOut,
}

/// The time that has passed since `started_ms` on a clock that reads `now_ms`;
/// nothing when the clock reads less than at the start.
pub open spec fn elapsed_between(started_ms: u64, now_ms: u64) -> u64 {
    if now_ms >= started_ms {
        (now_ms - started_ms) as u64
    } else {
        0
    }
}

/// The decision after an attempt that came back `elapsed_ms` into the wait.
///
/// Success counts up to and including the deadline. An attempt that failed
/// before the deadline is repeated after one tick, or at the deadline if that
/// comes first.
pub open spec fn poll_decision_spec(elapsed_ms: u64, satisfied: bool) -> PollDecision {
    if elapsed_ms > TIMEOUT_MS {
        PollDecision::TimedOut
    } else if satisfied {
        PollDecision::Succeeded
    } else if elapsed_ms == TIMEOUT_MS {
        PollDecision::TimedOut
    } else {
        let left = (TIMEOUT_MS - elapsed_ms) as u64;
        PollDecision::Retry { after_ms: if left < TICK_MS { left } else { TICK_MS }, within_ms: left }
    }
}

/// Reads the time passed since `started_ms`.
pub fn elapsed_since(started_ms: u64, now_ms: u64) -> (elapsed_ms: u64)
    ensures
        elapsed_ms == elapsed_between(started_ms, now_ms),
{
    if now_ms >= started_ms {
        now_ms - started_ms
    } else {
        0
    }
}

/// Decides what a wait does after an attempt that came back `elapsed_ms` into
/// the wait with the answer `satisfied`.
pub fn poll_decision(elapsed_ms: u64, satisfied: bool) -> (decision: PollDecision)
    ensures
        decision == poll_decision_spec(elapsed_ms, satisfied),
{
    if elapsed_ms > TIMEOUT_MS {
        PollDecision::TimedOut
    } else if satisfied {
        PollDecision::Succeeded
    } else if elapsed_ms == TIMEOUT_MS {
        PollDecision::TimedOut
    } else {
        let left: u64 = TIMEOUT_MS - elapsed_ms;
        let after_ms: u64 = if left < TICK_MS { left } else { TICK_MS };
        PollDecision::Retry { after_ms, within_ms: left }
    }
}

/// A wait succeeds exactly when the condition held no later than the deadline,
/// and it never rests past the deadline.
pub proof fn lemma_poll_decision_bounds(elapsed_ms: u64, satisfied: bool)
    ensures
        poll_decision_spec(elapsed_ms, satisfied) is Succeeded <==> satisfied && elapsed_ms
            <= TIMEOUT_MS,
        poll_decision_spec(elapsed_ms, satisfied) is TimedOut <==> elapsed_ms > TIMEOUT_MS || (
        !satisfied && elapsed_ms == TIMEOUT_MS),
        poll_decision_spec(elapsed_ms, satisfied) matches PollDecision::Retry { after_ms, within_ms }
            ==> 0 < after_ms <= TICK_MS && after_ms <= within_ms && elapsed_ms + within_ms
            == TIMEOUT_MS,
{
}

/// The moments at which the attempts of one wait came back, when the driver
/// rests as long as each decision asks before it tries again.
pub open spec fn rests_honoured(elapsed: Seq<u64>) -> bool {
    forall|k: int|
        0 <= k < elapsed.len() - 1 ==> (#[trigger] poll_decision_spec(
            elapsed[k],
            false,
        ) matches PollDecision::Retry { after_ms, .. } ==> elapsed[k + 1] >= elapsed[k] + after_ms)
}

/// A wait on a condition that never holds cannot go on for ever: when the
/// driver rests as asked, each attempt comes a tick later than the one before,
/// until one comes at the deadline or after it. So the attempt after
/// `TIMEOUT_MS / TICK_MS` rests, at the latest, is answered with `TimedOut`.
pub proof fn lemma_wait_times_out(elapsed: Seq<u64>, k: int)
    requires
        rests_honoured(elapsed),
        0 <= k < elapsed.len(),
    ensures
        elapsed[k] >= k * TICK_MS || exists|j: int| 0 <= j <= k && #[trigger] elapsed[j] >= TIMEOUT_MS,
        k >= TIMEOUT_MS / TICK_MS ==> exists|j: int|
            0 <= j <= k && poll_decision_spec(#[trigger] elapsed[j], false) is TimedOut,
    decreases k,
{
    if k > 0 {
        lemma_wait_times_out(elapsed, k - 1);
        if exists|j: int| 0 <= j <= k - 1 && #[trigger] elapsed[j] >= TIMEOUT_MS {
            let j = choose|j: int| 0 <= j <= k - 1 && #[trigger] elapsed[j] >= TIMEOUT_MS;
            assert(0 <= j <= k && elapsed[j] >= TIMEOUT_MS);
        } else {
            assert(elapsed[k - 1] < TIMEOUT_MS);
            assert(poll_decision_spec(elapsed[k - 1], false) is Retry);
            if elapsed[k] >= TIMEOUT_MS {
                assert(0 <= k <= k && elapsed[k] >= TIMEOUT_MS);
            }
        }
    }
    if k >= TIMEOUT_MS / TICK_MS {
        if elapsed[k] >= k * TICK_MS {
            assert(0 <= k <= k && elapsed[k] >= TIMEOUT_MS);
        }
        let j = choose|j: int| 0 <= j <= k && #[trigger] elapsed[j] >= TIMEOUT_MS;
        assert(poll_decision_spec(elapsed[j], false) is TimedOut);
    }
}

} // verus!
