//! Bounded retries with exponential backoff, and the minimum interval between calls.
//! The caller makes the calls and sleeps; how often and for how long is decided here.

use crate::error::GaggleError;
use vstd::prelude::*;

verus! {

/// How a call to the remote service is retried.
#[derive(Debug, Clone, Copy, PartialEq, Eq, Structural)]
pub struct RetryPolicy {
    /// Retries after the first try.
    pub attempts: u32,
    /// Milliseconds to sleep after the first failure.
    pub initial_delay_ms: u64,
    /// Cap, in milliseconds, on every later sleep.
    pub max_delay_ms: u64,
}

/// Number of retries where none is configured.
pub const DEFAULT_RETRY_ATTEMPTS: u32 = 3;

/// Milliseconds of the first sleep where none is configured.
pub const DEFAULT_RETRY_DELAY_MS: u64 = 1000;

/// Cap on the sleep, in milliseconds, where none is configured.
pub const DEFAULT_RETRY_MAX_DELAY_MS: u64 = 30000;

impl RetryPolicy {
    /// Number of calls at most: the first try and the retries.
    pub open spec fn max_tries(self) -> nat {
        (self.attempts + 1) as nat
    }
}

/// The sleep that follows a sleep of `delay_ms`: twice as long, but no longer than
/// `max_delay_ms`.
pub open spec fn next_delay_of(delay_ms: u64, max_delay_ms: u64) -> u64 {
    if 2 * delay_ms <= max_delay_ms {
        (2 * delay_ms) as u64
    } else {
        max_delay_ms
    }
}

/// The sleep that follows a sleep of `delay_ms`.
pub fn next_delay(delay_ms: u64, max_delay_ms: u64) -> (r: u64)
    ensures
        r == next_delay_of(delay_ms, max_delay_ms),
{
    if delay_ms <= max_delay_ms / 2 {
        delay_ms * 2
    } else {
        max_delay_ms
    }
}

/// The sleep after the failure number `failure`, counted from 1.
pub open spec fn delay_after(policy: RetryPolicy, failure: nat) -> u64
    decreases failure,
{
    if failure <= 1 {
        policy.initial_delay_ms
    } else {
        next_delay_of(delay_after(policy, (failure - 1) as nat), policy.max_delay_ms)
    }
}

/// 2 to the power of `n`.
pub open spec fn pow2(n: nat) -> nat
    decreases n,
{
    if n == 0 {
        1
    } else {
        2 * pow2((n - 1) as nat)
    }
}

/// The smaller of two numbers.
pub open spec fn min_of(a: nat, b: nat) -> nat {
    if a <= b {
        a
    } else {
        b
    }
}

/// The backoff in closed form: from the second failure on, the sleep is the first
/// sleep doubled once for each earlier failure, capped at the maximum delay.
pub proof fn lemma_backoff_closed_form(policy: RetryPolicy, failure: nat)
    requires
        failure >= 2,
    ensures
        delay_after(policy, failure) == min_of(
            policy.initial_delay_ms as nat * pow2((failure - 1) as nat),
            policy.max_delay_ms as nat,
        ),
    decreases failure,
{
    let init = policy.initial_delay_ms as nat;
    let max = policy.max_delay_ms as nat;
    let before = delay_after(policy, (failure - 1) as nat);
    assert(delay_after(policy, failure) == next_delay_of(before, policy.max_delay_ms));
    if failure == 2 {
        assert(before == policy.initial_delay_ms);
        assert(pow2(1) == 2) by {
            assert(pow2(0) == 1);
            assert(pow2(1) == 2 * pow2(0));
        }
        assert(init * pow2(1) == 2 * init) by (nonlinear_arith)
            requires
                pow2(1) == 2,
        ;
    } else {
        lemma_backoff_closed_form(policy, (failure - 1) as nat);
        let p = pow2((failure - 2) as nat);
        assert(pow2((failure - 1) as nat) == 2 * p);
        assert(init * pow2((failure - 1) as nat) == 2 * (init * p)) by (nonlinear_arith)
            requires
                pow2((failure - 1) as nat) == 2 * p,
        ;
        assert(before == min_of(init * p, max));
    }
}

/// No sleep after the first is longer than the maximum delay.
pub proof fn lemma_backoff_is_capped(policy: RetryPolicy, failure: nat)
    requires
        failure >= 2,
    ensures
        delay_after(policy, failure) <= policy.max_delay_ms,
{
}

/// What follows a failed call.
#[derive(Debug, Clone, Copy, PartialEq, Eq, Structural)]
pub enum RetryStep {
    /// Sleep for this many milliseconds, then call again.
    Retry { sleep_ms: u64 },
    /// No try is left: the last error is the result.
    GiveUp,
}

/// The retries of one call.
#[derive(Debug, Clone, Copy, PartialEq, Eq, Structural)]
pub struct RetryState {
    /// The policy that is followed.
    pub policy: RetryPolicy,
    /// Number of calls that have failed.
    pub failures: u64,
    /// Milliseconds to sleep after the next failure.
    pub delay_ms: u64,
}

impl RetryState {
    /// The state is one that `new` and `on_failure` produce.
    pub open spec fn wf(self) -> bool {
        &&& self.failures <= self.policy.max_tries()
        &&& self.delay_ms == delay_after(self.policy, (self.failures + 1) as nat)
    }

    /// Whether another call may be made.
    pub open spec fn may_call(self) -> bool {
        self.failures < self.policy.max_tries()
    }

    /// What follows one more failure.
    pub open spec fn step_after_failure(self) -> RetryStep {
        if self.failures + 1 < self.policy.max_tries() {
            RetryStep::Retry { sleep_ms: self.delay_ms }
        } else {
            RetryStep::GiveUp
        }
    }

    /// Before the first call.
    pub fn new(policy: RetryPolicy) -> (r: RetryState)
        ensures
            r.wf(),
            r.policy == policy,
            r.failures == 0,
            r.may_call(),
    {
        RetryState { policy, failures: 0, delay_ms: policy.initial_delay_ms }
    }

    /// Takes in that the call failed and tells what follows: a sleep and one more
    /// call while tries are left, the end otherwise. Told of a failure when no call
    /// was due, it answers `GiveUp` and changes nothing.
    pub fn on_failure(&mut self) -> (r: RetryStep)
        requires
            old(self).wf(),
        ensures
            final(self).wf(),
            final(self).policy == old(self).policy,
            old(self).may_call() ==> r == old(self).step_after_failure() && final(self).failures
                == old(self).failures + 1,
            !old(self).may_call() ==> r == RetryStep::GiveUp && *final(self) == *old(self),
            r is Retry <==> final(self).may_call(),
    {
        let max_tries: u64 = self.policy.attempts as u64 + 1;
        if self.failures >= max_tries {
            return RetryStep::GiveUp;
        }
        let sleep_ms = self.delay_ms;
        self.failures = self.failures + 1;
        self.delay_ms = next_delay(self.delay_ms, self.policy.max_delay_ms);
        if self.failures < max_tries {
            RetryStep::Retry { sleep_ms }
        } else {
            RetryStep::GiveUp
        }
    }
}

/// A call that fails every time is made as often as the policy allows and no more:
/// the failure number `max_tries` ends the retries, every earlier one is followed by
/// the sleep that the backoff gives.
pub proof fn lemma_retries_are_bounded(s: RetryState)
    requires
        s.wf(),
        s.may_call(),
    ensures
        s.step_after_failure() is GiveUp <==> s.failures + 1 == s.policy.max_tries(),
        s.step_after_failure() matches RetryStep::Retry { sleep_ms } ==> sleep_ms == delay_after(
            s.policy,
            (s.failures + 1) as nat,
        ),
{
}

/// Milliseconds to wait before a call so that `min_interval_ms` lie between it and the
/// call before, which was `elapsed_ms` ago. No wait where no interval is set.
pub open spec fn rate_limit_wait_of(min_interval_ms: u64, elapsed_ms: u64) -> u64 {
    if elapsed_ms < min_interval_ms {
        (min_interval_ms - elapsed_ms) as u64
    } else {
        0
    }
}

/// Milliseconds to wait before the next call to the remote service.
pub fn rate_limit_wait(min_interval_ms: u64, elapsed_ms: u64) -> (r: u64)
    ensures
        r == rate_limit_wait_of(min_interval_ms, elapsed_ms),
        min_interval_ms == 0 ==> r == 0,
        elapsed_ms + r >= min_interval_ms,
{
    if elapsed_ms < min_interval_ms {
        min_interval_ms - elapsed_ms
    } else {
        0
    }
}


/// Whether the call number `attempt` of `op`, counted from 0, can have failed.
pub open spec fn can_fail<T, F: Fn(u32) -> Result<T, GaggleError>>(op: F, attempt: u32) -> bool {
    exists|e: GaggleError| op.ensures((attempt,), Err::<T, GaggleError>(e))
}

/// Whether `r` is what `calls` calls of `op` can give under `policy`, with `pause`
/// called between them: every call but the last failed and was followed by the
/// pause that the backoff gives, the last call gave `r`, and a failure is the result
/// only of the last call that the policy allows.
pub open spec fn is_outcome_of<T, F: Fn(u32) -> Result<T, GaggleError>, P: Fn(u64) -> ()>(
    policy: RetryPolicy,
    op: F,
    pause: P,
    calls: nat,
    r: Result<T, GaggleError>,
) -> bool {
    &&& 1 <= calls <= policy.max_tries()
    &&& forall|k: nat|
        k + 1 < calls ==> #[trigger] can_fail(op, k as u32) && pause.ensures(
            (delay_after(policy, k + 1),),
            (),
        )
    &&& op.ensures(((calls - 1) as u32,), r)
    &&& r is Err ==> calls == policy.max_tries()
}

/// Calls `op` until it succeeds or the tries of `policy` are used up, and pauses
/// between two calls for as long as the backoff says; `op` is handed the number of
/// the call, counted from 0, and `pause` the milliseconds. The result is that of the
/// last call: the first success, or the error of the call after which no try was
/// left.
pub fn with_retries<T, F: Fn(u32) -> Result<T, GaggleError>, P: Fn(u64) -> ()>(
    policy: RetryPolicy,
    op: F,
    pause: P,
) -> (r: Result<T, GaggleError>)
    requires
        forall|attempt: u32| op.requires((attempt,)),
        forall|ms: u64| pause.requires((ms,)),
    ensures
        exists|calls: nat| is_outcome_of(policy, op, pause, calls, r),
{
    let mut state = RetryState::new(policy);
    loop
        invariant
            state.wf(),
            state.may_call(),
            state.policy == policy,
            forall|attempt: u32| op.requires((attempt,)),
            forall|ms: u64| pause.requires((ms,)),
            forall|k: nat|
                k < state.failures ==> #[trigger] can_fail(op, k as u32) && pause.ensures(
                    (delay_after(policy, k + 1),),
                    (),
                ),
        decreases policy.max_tries() - state.failures,
    {
        let attempt = state.failures as u32;
        let outcome = op(attempt);
        match outcome {
            Ok(v) => {
                proof {
                    assert(is_outcome_of(
                        policy,
                        op,
                        pause,
                        (attempt + 1) as nat,
                        Ok::<T, GaggleError>(v),
                    ));
                }
                return Ok(v);
            },
            Err(e) => {
                proof {
                    assert(op.ensures((attempt,), Err::<T, GaggleError>(e)));
                    assert(can_fail(op, attempt));
                }
                match state.on_failure() {
                    RetryStep::Retry { sleep_ms } => {
                        pause(sleep_ms);
                        proof {
                            assert(sleep_ms == delay_after(policy, (attempt + 1) as nat));
                            assert(pause.ensures((sleep_ms,), ()));
                        }
                    },
                    RetryStep::GiveUp => {
                        proof {
                            assert(is_outcome_of(
                                policy,
                                op,
                                pause,
                                (attempt + 1) as nat,
                                Err::<T, GaggleError>(e),
                            ));
                        }
                        return Err(e);
                    },
                }
            },
        }
    }
}

} // verus!
