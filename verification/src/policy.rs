//! The restart policy: a pure decision function mapping the attempt count,
//! the outcome of the last attempt and the policy parameters to either
//! "stop supervising" or "restart after a delay".

use vstd::prelude::*;
use vstd::arithmetic::power2::{pow2, lemma_pow2_strictly_increases, lemma2_to64, lemma2_to64_rest};

verus! {

/// Classification of one spawn attempt: the child exited with code 0, the
/// child exited with a nonzero code (or was killed), or the child could not
/// be started at all.
#[derive(Clone, Copy, PartialEq, Eq, Structural, Debug)]
pub enum Outcome {
    Success,
    Failure,
    SpawnError,
}

/// What the supervisor loop must do after an attempt: give the service up,
/// or respawn it after the given delay in seconds.
#[derive(Clone, Copy, PartialEq, Eq, Structural, Debug)]
pub enum Decision {
    Stop,
    RestartAfter(u64),
}

/// The largest attempt number whose exponential backoff delay still fits in
/// a `u64`; beyond it the delay saturates.
pub const MAX_EXACT_BACKOFF_EXPONENT: u64 = 63;

/// The delay in seconds before the next spawn attempt: `2^attempt` under
/// exponential backoff (saturating once the power no longer fits in a
/// `u64`), otherwise a fixed delay of one second.
pub open spec fn spec_delay(expo_backoff: bool, attempt: nat) -> u64 {
    if expo_backoff {
        if attempt <= MAX_EXACT_BACKOFF_EXPONENT {
            pow2(attempt) as u64
        } else {
            u64::MAX
        }
    } else {
        1u64
    }
}

/// The restart decision: stop when a success is final (`restart_on_success`
/// is off), or when a non-success has exhausted the restart budget; restart
/// after the backoff delay otherwise.
pub open spec fn spec_decide(
    attempt: nat,
    outcome: Outcome,
    max_restarts: Option<usize>,
    restart_on_success: bool,
    expo_backoff: bool,
) -> Decision {
    if outcome == Outcome::Success && !restart_on_success {
        Decision::Stop
    } else if outcome != Outcome::Success && (max_restarts matches Some(m) && attempt > m) {
        Decision::Stop
    } else {
        Decision::RestartAfter(spec_delay(expo_backoff, attempt))
    }
}

proof fn lemma_pow2_63_fits()
    ensures
        pow2(63) == 0x8000000000000000,
{
    lemma2_to64_rest();
}

/// Every exact exponential delay fits in a `u64`.
proof fn lemma_pow2_le_63_fits(e: nat)
    requires
        e <= 63,
    ensures
        pow2(e) <= 0x8000000000000000,
{
    lemma_pow2_63_fits();
    if e < 63 {
        lemma_pow2_strictly_increases(e, 63);
    }
}

/// Compute the backoff delay for the given attempt.
pub fn delay(expo_backoff: bool, attempt: usize) -> (r: u64)
    ensures
        r == spec_delay(expo_backoff, attempt as nat),
{
    if !expo_backoff {
        return 1;
    }
    if attempt as u64 > MAX_EXACT_BACKOFF_EXPONENT {
        return u64::MAX;
    }
    let mut d: u64 = 1;
    let mut i: usize = 0;
    proof {
        lemma2_to64();
    }
    while i < attempt
        invariant
            i <= attempt,
            attempt as u64 <= MAX_EXACT_BACKOFF_EXPONENT,
            d == pow2(i as nat),
        decreases attempt - i,
    {
        proof {
            lemma_pow2_le_63_fits((i + 1) as nat);
            vstd::arithmetic::power2::lemma_pow2_unfold((i + 1) as nat);
        }
        d = d * 2;
        i = i + 1;
    }
    d
}

/// Decide whether to restart a service after an attempt.
///
/// `attempt` is the 1-based count of spawn attempts made so far; the
/// remaining parameters are the service's declared policy.
pub fn decide(
    attempt: usize,
    outcome: Outcome,
    max_restarts: Option<usize>,
    restart_on_success: bool,
    expo_backoff: bool,
) -> (r: Decision)
    ensures
        r == spec_decide(attempt as nat, outcome, max_restarts, restart_on_success, expo_backoff),
{
    if outcome == Outcome::Success && !restart_on_success {
        return Decision::Stop;
    }
    if outcome != Outcome::Success {
        if let Some(m) = max_restarts {
            if attempt > m {
                return Decision::Stop;
            }
        }
    }
    Decision::RestartAfter(delay(expo_backoff, attempt))
}

/// A service whose restart budget is zero is attempted exactly once on
/// failure: the very first non-success outcome already decides `Stop`, so
/// no restart ever happens.
pub proof fn lemma_zero_budget_stops_after_first_failure(
    outcome: Outcome,
    restart_on_success: bool,
    expo_backoff: bool,
)
    requires
        outcome != Outcome::Success,
    ensures
        spec_decide(1, outcome, Some(0), restart_on_success, expo_backoff) == Decision::Stop,
{
}

/// A success never restarts a service whose `restart_on_success` is off,
/// whatever the attempt count and budget; with `restart_on_success` on, a
/// success always restarts it.
pub proof fn lemma_restart_on_success(
    attempt: nat,
    max_restarts: Option<usize>,
    expo_backoff: bool,
)
    ensures
        spec_decide(attempt, Outcome::Success, max_restarts, false, expo_backoff)
            == Decision::Stop,
        spec_decide(attempt, Outcome::Success, max_restarts, true, expo_backoff)
            matches Decision::RestartAfter(_),
{
}

/// The restart budget bounds failed attempts: a non-success is only ever
/// restarted while the attempt number is within `max_restarts`, so a
/// service whose every attempt fails is spawned at most
/// `max_restarts + 1` times.
pub proof fn lemma_failed_attempts_bounded(
    attempt: nat,
    outcome: Outcome,
    max_restarts: usize,
    restart_on_success: bool,
    expo_backoff: bool,
)
    requires
        outcome != Outcome::Success,
        spec_decide(attempt, outcome, Some(max_restarts), restart_on_success, expo_backoff)
            matches Decision::RestartAfter(_),
    ensures
        attempt <= max_restarts,
{
}

/// Under exponential backoff the delays across consecutive attempts grow
/// strictly, as long as the exponent still fits in a `u64`; past that the
/// delay saturates at `u64::MAX`.
pub proof fn lemma_backoff_strictly_increases(a: nat, b: nat)
    requires
        a < b,
        b <= MAX_EXACT_BACKOFF_EXPONENT + 1,
    ensures
        spec_delay(true, a) < spec_delay(true, b),
{
    lemma_pow2_le_63_fits(a);
    if b <= MAX_EXACT_BACKOFF_EXPONENT {
        lemma_pow2_le_63_fits(b);
        lemma_pow2_strictly_increases(a, b);
    } else {
        lemma_pow2_le_63_fits(a);
    }
}

} // verus!
