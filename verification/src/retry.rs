//! The bounded retry policy: a pure decision core for re-invoking a
//! fallible operation.
//!
//! The surrounding runtime performs the operation, classifies its error
//! through the policy's predicate, and asks `next_retry_action` what to do;
//! it sleeps for the returned delay before the next attempt.  `run_retries`
//! executes the whole decision sequence against a prerecorded list of
//! attempt outcomes, one per attempt, and is verified for every such list.

use vstd::prelude::*;

verus! {

/// Shape of the delay between attempts.
#[derive(Clone, Copy)]
pub enum BackoffPolicy {
    /// The same delay before every retry.
    Fixed { delay_ms: u64 },
    /// A delay that doubles after each retry, starting at `initial_ms` and
    /// never exceeding `max_ms`.
    Exponential { initial_ms: u64, max_ms: u64 },
}

/// An immutable retry policy: how many attempts in all (the first try
/// included) and how long to wait between them.
#[derive(Clone, Copy)]
pub struct RetryConfig {
    pub max_attempts: u32,
    pub backoff: BackoffPolicy,
}

/// The outcome of one attempt, with the policy's retryable-or-fatal
/// classification already applied to the error.
#[derive(Clone, Copy, PartialEq, Eq, Structural, Debug)]
pub enum AttemptOutcome {
    Success,
    RetryableFailure,
    FatalFailure,
}

/// What the executor does after an attempt.
#[derive(Clone, Copy, PartialEq, Eq, Structural, Debug)]
pub enum RetryDecision {
    /// The attempt succeeded: return its value.
    Finish,
    /// Wait this long, then try again.
    RetryAfter { delay_ms: u64 },
    /// Return the last error, tagged with the attempts made.
    GiveUp { attempts: u32 },
}

/// The delay before the retry that follows attempt number `attempt`.
pub open spec fn spec_delay(b: BackoffPolicy, attempt: nat) -> nat
    decreases attempt,
{
    match b {
        BackoffPolicy::Fixed { delay_ms } => delay_ms as nat,
        BackoffPolicy::Exponential { initial_ms, max_ms } => {
            if attempt <= 1 {
                if initial_ms > max_ms {
                    max_ms as nat
                } else {
                    initial_ms as nat
                }
            } else {
                let p = spec_delay(b, (attempt - 1) as nat);
                if p > max_ms as nat / 2 {
                    max_ms as nat
                } else {
                    p * 2
                }
            }
        }
    }
}

/// The delay before the retry that follows attempt number `attempt`.
#[verifier::loop_isolation(false)]
pub fn delay_for_attempt(b: &BackoffPolicy, attempt: u32) -> (r: u64)
    requires
        attempt >= 1,
    ensures
        r as nat == spec_delay(*b, attempt as nat),
{
    match b {
        BackoffPolicy::Fixed { delay_ms } => *delay_ms,
        BackoffPolicy::Exponential { initial_ms, max_ms } => {
            let mut d: u64 = if *initial_ms > *max_ms {
                *max_ms
            } else {
                *initial_ms
            };
            let mut k: u32 = 1;
            while k < attempt
                invariant
                    1 <= k <= attempt,
                    d as nat == spec_delay(*b, k as nat),
                    d <= *max_ms,
                decreases attempt - k,
            {
                d = if d > *max_ms / 2 {
                    *max_ms
                } else {
                    d * 2
                };
                k = k + 1;
            }
            d
        }
    }
}

/// Decide what follows an attempt: success is never retried; a fatal error
/// is returned at once; a retryable error is retried, after the configured
/// backoff, until the attempt budget is spent.
pub fn next_retry_action(config: &RetryConfig, attempts_made: u32, outcome: AttemptOutcome) -> (r:
    RetryDecision)
    requires
        attempts_made >= 1,
    ensures
        outcome == AttemptOutcome::Success ==> r == RetryDecision::Finish,
        outcome == AttemptOutcome::FatalFailure ==> r == (RetryDecision::GiveUp {
            attempts: attempts_made,
        }),
        outcome == AttemptOutcome::RetryableFailure && attempts_made < config.max_attempts
            ==> (r matches RetryDecision::RetryAfter { delay_ms } && delay_ms as nat == spec_delay(
            config.backoff,
            attempts_made as nat,
        )),
        outcome == AttemptOutcome::RetryableFailure && attempts_made >= config.max_attempts ==> r
            == (RetryDecision::GiveUp { attempts: attempts_made }),
{
    match outcome {
        AttemptOutcome::Success => RetryDecision::Finish,
        AttemptOutcome::FatalFailure => RetryDecision::GiveUp { attempts: attempts_made },
        AttemptOutcome::RetryableFailure => {
            if attempts_made < config.max_attempts {
                RetryDecision::RetryAfter {
                    delay_ms: delay_for_attempt(&config.backoff, attempts_made),
                }
            } else {
                RetryDecision::GiveUp { attempts: attempts_made }
            }
        }
    }
}

/// How a whole run ended: the number of attempts made (the first try
/// included) and the outcome of the last attempt.
#[derive(Clone, Copy, PartialEq, Eq, Structural, Debug)]
pub struct RetryRun {
    pub attempts: u32,
    pub outcome: AttemptOutcome,
}

/// Drive the retry loop against a prerecorded outcome per attempt:
/// attempt `i` observes `outcomes[i - 1]`.  The result is pinned exactly:
/// every attempt before the last failed retryably, and the run stops early
/// only on a success or a fatal error.
pub fn run_retries(config: &RetryConfig, outcomes: &Vec<AttemptOutcome>) -> (r: RetryRun)
    requires
        config.max_attempts >= 1,
        outcomes@.len() >= config.max_attempts,
    ensures
        1 <= r.attempts <= config.max_attempts,
        r.outcome == outcomes@[r.attempts - 1],
        forall|j: int| 0 <= j < r.attempts - 1 ==> outcomes@[j] == AttemptOutcome::RetryableFailure,
        r.attempts < config.max_attempts ==> r.outcome != AttemptOutcome::RetryableFailure,
{
    let mut attempt: u32 = 1;
    loop
        invariant
            1 <= attempt <= config.max_attempts,
            outcomes@.len() >= config.max_attempts,
            config.max_attempts >= 1,
            forall|j: int| 0 <= j < attempt - 1 ==> outcomes@[j] == AttemptOutcome::RetryableFailure,
        decreases config.max_attempts - attempt,
    {
        let outcome = outcomes[(attempt - 1) as usize];
        match next_retry_action(config, attempt, outcome) {
            RetryDecision::RetryAfter { delay_ms: _ } => {
                attempt = attempt + 1;
            }
            _ => {
                return RetryRun { attempts: attempt, outcome };
            }
        }
    }
}

} // verus!
