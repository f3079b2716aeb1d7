//! The retry policy: when a failed operation is tried again, and after what
//! pause.

use vstd::prelude::*;
use crate::error::AppError;

verus! {

/// How often, and with what pauses, a failing operation is tried again.
#[derive(Debug, Clone, Copy)]
pub struct RetryConfig {
    /// Most calls of the operation in one run, the first included.
    pub max_attempts: u32,
    pub initial_delay_ms: u64,
    pub max_delay_ms: u64,
    /// Factor by which the scheduled delay grows after each retry, in
    /// thousandths: 2000 doubles it.
    pub backoff_multiplier_permille: u64,
}

impl Default for RetryConfig {
    fn default() -> (r: RetryConfig)
        ensures
            r.max_attempts == 3,
            r.initial_delay_ms == 1000,
            r.max_delay_ms == 10000,
            r.backoff_multiplier_permille == 2000,
    {
        RetryConfig {
            max_attempts: 3,
            initial_delay_ms: 1000,
            max_delay_ms: 10000,
            backoff_multiplier_permille: 2000,
        }
    }
}

/// The scheduled delay after one more retry: grown by the multiplier, capped
/// at the configured maximum.
pub open spec fn next_delay(config: RetryConfig, delay_ms: u64) -> u64 {
    let grown = delay_ms as int * config.backoff_multiplier_permille as int / 1000;
    if grown < config.max_delay_ms as int {
        grown as u64
    } else {
        config.max_delay_ms
    }
}

/// What the caller does after a failed call.
#[derive(Debug, Clone, Copy, PartialEq, Eq, Structural)]
pub enum RetryStep {
    /// Pause this long, then call the operation again.
    Retry { wait_ms: u64 },
    /// Stop and hand the last error to the caller.
    GiveUp,
}

/// Where a run of retries stands: the number of the call in flight (from 1)
/// and the delay scheduled for the next pause.
#[derive(Debug, Clone, Copy, PartialEq, Eq, Structural)]
pub struct RetrySchedule {
    pub attempt: u32,
    pub delay_ms: u64,
}

impl RetrySchedule {
    pub open spec fn initial(config: RetryConfig) -> RetrySchedule {
        RetrySchedule { attempt: 1, delay_ms: config.initial_delay_ms }
    }

    /// The decision after call number `self.attempt` failed with `error`, and
    /// the schedule that follows it. A retry is owed only while attempts remain
    /// and the error is retryable; its pause is the error's own hint where it
    /// has one, else the scheduled delay.
    pub open spec fn step(self, config: RetryConfig, error: AppError) -> (RetryStep, RetrySchedule) {
        if self.attempt < config.max_attempts && error.retryable() {
            let wait = match error.delay_hint() {
                Some(h) => h,
                None => self.delay_ms,
            };
            (
                RetryStep::Retry { wait_ms: wait },
                RetrySchedule { attempt: (self.attempt + 1) as u32, delay_ms: next_delay(config, self.delay_ms) },
            )
        } else {
            (RetryStep::GiveUp, self)
        }
    }

    /// The schedule before the first call. A run makes at least one call, so
    /// the configuration must allow one.
    pub fn start(config: &RetryConfig) -> (s: RetrySchedule)
        requires
            config.max_attempts >= 1,
        ensures
            s == RetrySchedule::initial(*config),
    {
        RetrySchedule { attempt: 1, delay_ms: config.initial_delay_ms }
    }

    /// Records that the call in flight failed with `error` and says whether to
    /// try again.
    pub fn after_failure(&mut self, config: &RetryConfig, error: &AppError) -> (r: RetryStep)
        ensures
            (r, *final(self)) == old(self).step(*config, *error),
    {
        if self.attempt < config.max_attempts && error.is_retryable() {
            let wait = match error.retry_delay_ms() {
                Some(h) => h,
                None => self.delay_ms,
            };
            let d = self.delay_ms as u128;
            let m = config.backoff_multiplier_permille as u128;
            proof {
                assert(d * m <= 0xffff_ffff_ffff_ffffu128 * 0xffff_ffff_ffff_ffffu128) by (nonlinear_arith)
                    requires d <= 0xffff_ffff_ffff_ffffu128, m <= 0xffff_ffff_ffff_ffffu128;
            }
            let grown: u128 = d * m / 1000;
            let next: u64 = if grown < config.max_delay_ms as u128 {
                grown as u64
            } else {
                config.max_delay_ms
            };
            self.attempt = self.attempt + 1;
            self.delay_ms = next;
            RetryStep::Retry { wait_ms: wait }
        } else {
            RetryStep::GiveUp
        }
    }
}

/// The number of calls a run makes when every call fails, the k-th with
/// `errors[k]`, starting from schedule `s` (or until the errors run out).
pub open spec fn calls_while_failing(config: RetryConfig, s: RetrySchedule, errors: Seq<AppError>) -> nat
    decreases errors.len(),
{
    if errors.len() == 0 {
        0
    } else {
        match s.step(config, errors[0]).0 {
            RetryStep::Retry { .. } => 1 + calls_while_failing(config, s.step(config, errors[0]).1, errors.drop_first()),
            RetryStep::GiveUp => 1,
        }
    }
}

/// The schedule after the first `k` calls failed with `errors[0..k]` and each
/// was retried.
pub open spec fn schedule_after(config: RetryConfig, s: RetrySchedule, errors: Seq<AppError>, k: nat) -> RetrySchedule
    decreases k,
{
    if k == 0 || errors.len() == 0 {
        s
    } else {
        schedule_after(config, s.step(config, errors[0]).1, errors.drop_first(), (k - 1) as nat)
    }
}

proof fn lemma_calls_all_retryable(config: RetryConfig, s: RetrySchedule, errors: Seq<AppError>)
    requires
        1 <= s.attempt <= config.max_attempts,
        errors.len() >= config.max_attempts - s.attempt + 1,
        forall|i: int| 0 <= i < errors.len() ==> (#[trigger] errors[i]).retryable(),
    ensures
        calls_while_failing(config, s, errors) == config.max_attempts - s.attempt + 1,
        schedule_after(config, s, errors, (config.max_attempts - s.attempt) as nat).step(
            config,
            errors[config.max_attempts - s.attempt],
        ).0 is GiveUp,
    decreases config.max_attempts - s.attempt,
{
    if s.attempt < config.max_attempts {
        let next = s.step(config, errors[0]).1;
        let rest = errors.drop_first();
        assert forall|i: int| 0 <= i < rest.len() implies (#[trigger] rest[i]).retryable() by {
            assert(rest[i] == errors[i + 1]);
        }
        lemma_calls_all_retryable(config, next, rest);
        assert(rest[config.max_attempts - next.attempt] == errors[config.max_attempts - s.attempt]);
    }
}

/// An operation that keeps failing with retryable errors is called exactly
/// `max_attempts` times: every failure before the last is retried, and the
/// schedule gives up on the last one, `errors[max_attempts - 1]`, which is the
/// error handed back.
pub proof fn retry_exhaustion(config: RetryConfig, errors: Seq<AppError>)
    requires
        config.max_attempts >= 1,
        errors.len() >= config.max_attempts,
        forall|i: int| 0 <= i < errors.len() ==> (#[trigger] errors[i]).retryable(),
    ensures
        calls_while_failing(config, RetrySchedule::initial(config), errors) == config.max_attempts,
        schedule_after(config, RetrySchedule::initial(config), errors, (config.max_attempts - 1) as nat).step(
            config,
            errors[config.max_attempts - 1],
        ).0 is GiveUp,
{
    lemma_calls_all_retryable(config, RetrySchedule::initial(config), errors);
}

/// An operation whose first failure is not retryable is called exactly once,
/// whatever the configuration.
pub proof fn non_retryable_short_circuit(config: RetryConfig, errors: Seq<AppError>)
    requires
        errors.len() >= 1,
        !errors[0].retryable(),
    ensures
        calls_while_failing(config, RetrySchedule::initial(config), errors) == 1,
{
}

} // verus!
