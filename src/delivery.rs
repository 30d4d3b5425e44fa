//! Retry policies: webhook delivery with capped exponential backoff, and the
//! liveness heartbeat's sleep between probes.

use vstd::prelude::*;

verus! {

/// Ceiling of the delay between two delivery attempts, in seconds.
pub const MAX_BACKOFF_SECS: u64 = 3600;

/// Shortest sleep after a failed heartbeat, in seconds.
pub const MIN_HEARTBEAT_RETRY_SECS: u64 = 5;

/// The delay that follows `d`: twice `d`, capped.
pub open spec fn next_delay_spec(d: u64) -> u64 {
    if 2 * d >= MAX_BACKOFF_SECS {
        MAX_BACKOFF_SECS
    } else {
        (2 * d) as u64
    }
}

/// The `k`-th delay of a schedule that starts at `base`: `base`, then each
/// delay doubled and capped.
pub open spec fn backoff(base: u64, k: nat) -> u64
    decreases k,
{
    if k == 0 {
        base
    } else {
        next_delay_spec(backoff(base, (k - 1) as nat))
    }
}

/// Twice `delay`, capped at the ceiling.
pub fn next_delay(delay: u64) -> (r: u64)
    ensures
        r == next_delay_spec(delay),
{
    if delay >= MAX_BACKOFF_SECS / 2 {
        MAX_BACKOFF_SECS
    } else {
        delay * 2
    }
}

/// What a delivery worker does after a failed attempt.
#[derive(Clone, Copy, Debug, PartialEq, Eq, Structural)]
pub enum DeliveryStep {
    /// Sleep this many seconds, then try again.
    Retry { sleep_secs: u64 },
    /// Report that the delivery was given up, and drop the event.
    Abandon,
}

/// The retry state of the delivery of one event.
#[derive(Clone, Copy, Debug, PartialEq, Eq, Structural)]
pub struct DeliveryAttempt {
    /// Attempts that have failed so far.
    pub attempts: u32,
    /// Sleep before the next attempt, in seconds.
    pub delay: u64,
    /// Attempts after which the delivery is given up.
    pub max_retries: u32,
}

impl DeliveryAttempt {
    /// The state before the first attempt.
    pub open spec fn start(max_retries: u32, base: u64) -> DeliveryAttempt {
        DeliveryAttempt { attempts: 0, delay: base, max_retries }
    }

    /// Whether another attempt is to be made: none has failed yet, or fewer
    /// than the maximum have.
    pub open spec fn can_retry(self) -> bool {
        self.attempts == 0 || self.attempts < self.max_retries
    }

    /// The state and the step after one more failed attempt.
    pub open spec fn failed(self) -> (DeliveryAttempt, DeliveryStep) {
        let attempts = (self.attempts + 1) as u32;
        if attempts >= self.max_retries {
            (DeliveryAttempt { attempts, ..self }, DeliveryStep::Abandon)
        } else {
            (
                DeliveryAttempt { attempts, delay: next_delay_spec(self.delay), ..self },
                DeliveryStep::Retry { sleep_secs: self.delay },
            )
        }
    }

    /// The state and the steps after `n` failed attempts in a row.
    pub open spec fn failures(self, n: nat) -> (DeliveryAttempt, Seq<DeliveryStep>)
        decreases n,
    {
        if n == 0 {
            (self, Seq::empty())
        } else {
            let (s, steps) = self.failures((n - 1) as nat);
            let (t, step) = s.failed();
            (t, steps.push(step))
        }
    }

    /// The state before the first attempt.
    pub fn new(max_retries: u32, retry_delay_secs: u64) -> (r: DeliveryAttempt)
        ensures
            r == DeliveryAttempt::start(max_retries, retry_delay_secs),
    {
        DeliveryAttempt { attempts: 0, delay: retry_delay_secs, max_retries }
    }

    /// Records a failed attempt and says whether to retry, after which sleep,
    /// or to give up.
    pub fn on_failure(&mut self) -> (r: DeliveryStep)
        requires
            old(self).can_retry(),
        ensures
            (*final(self), r) == old(self).failed(),
    {
        self.attempts = self.attempts + 1;
        if self.attempts >= self.max_retries {
            DeliveryStep::Abandon
        } else {
            let sleep_secs = self.delay;
            self.delay = next_delay(self.delay);
            DeliveryStep::Retry { sleep_secs }
        }
    }
}

/// The number of attempts a delivery makes when all of them fail: the
/// maximum, and at least one.
pub open spec fn attempts_allowed(max_retries: u32) -> nat {
    if max_retries == 0 {
        1
    } else {
        max_retries as nat
    }
}

proof fn lemma_failures_before_limit(max_retries: u32, base: u64, n: nat)
    requires
        n < attempts_allowed(max_retries),
    ensures
        DeliveryAttempt::start(max_retries, base).failures(n).0.attempts == n,
        DeliveryAttempt::start(max_retries, base).failures(n).0.delay == backoff(base, n),
        DeliveryAttempt::start(max_retries, base).failures(n).0.max_retries == max_retries,
        DeliveryAttempt::start(max_retries, base).failures(n).1.len() == n,
        forall|k: int|
            0 <= k < n ==> DeliveryAttempt::start(max_retries, base).failures(n).1[k]
                == retry_after(backoff(base, k as nat)),
    decreases n,
{
    if n > 0 {
        lemma_failures_before_limit(max_retries, base, (n - 1) as nat);
    }
}

pub open spec fn retry_after(secs: u64) -> DeliveryStep {
    DeliveryStep::Retry { sleep_secs: secs }
}

/// When every attempt fails, a delivery sleeps `d, 2d, 4d, ...` (each delay
/// capped at the ceiling) between attempts, makes as many attempts as its
/// maximum allows (at least one), gives up exactly once, at the last failure,
/// and makes no attempt after that.
pub proof fn lemma_backoff_schedule(max_retries: u32, base: u64)
    ensures
        DeliveryAttempt::start(max_retries, base).failures(attempts_allowed(max_retries)).1.len()
            == attempts_allowed(max_retries),
        forall|k: int|
            0 <= k < attempts_allowed(max_retries) - 1 ==> DeliveryAttempt::start(
                max_retries,
                base,
            ).failures(attempts_allowed(max_retries)).1[k] == retry_after(backoff(base, k as nat)),
        DeliveryAttempt::start(max_retries, base).failures(attempts_allowed(max_retries)).1[
            attempts_allowed(max_retries) - 1] == DeliveryStep::Abandon,
        forall|n: nat|
            n < attempts_allowed(max_retries) ==> (#[trigger] DeliveryAttempt::start(
                max_retries,
                base,
            ).failures(n)).0.can_retry(),
        !DeliveryAttempt::start(max_retries, base).failures(attempts_allowed(max_retries)).0.can_retry(),
{
    let m = attempts_allowed(max_retries);
    lemma_failures_before_limit(max_retries, base, (m - 1) as nat);
    assert forall|n: nat| n < m implies (#[trigger] DeliveryAttempt::start(
        max_retries,
        base,
    ).failures(n)).0.can_retry() by {
        lemma_failures_before_limit(max_retries, base, n);
    }
}

/// What the outcome of a heartbeat probe was.
#[derive(Clone, Copy, Debug, PartialEq, Eq, Structural)]
pub enum HeartbeatResult {
    Success,
    /// The monitor answered with a status that is not a success.
    BadStatus,
    /// The request did not complete.
    TransportError,
}

/// What the heartbeat loop does after a probe.
#[derive(Clone, Copy, Debug, PartialEq, Eq, Structural)]
pub struct HeartbeatAction {
    /// Seconds to sleep before the next probe.
    pub sleep_secs: u64,
    /// Whether the failure goes to the error-reporting service.
    pub report: bool,
}

/// The sleep after a failed probe: half the interval, but at least the minimum.
pub open spec fn heartbeat_retry_spec(interval: u64) -> u64 {
    if interval / 2 > MIN_HEARTBEAT_RETRY_SECS {
        interval / 2
    } else {
        MIN_HEARTBEAT_RETRY_SECS
    }
}

/// The action after a probe: the interval after a success, the shorter retry
/// sleep after a failure; only a transport error is reported, as the monitor
/// notices missing probes by itself.
pub open spec fn heartbeat_spec(interval: u64, result: HeartbeatResult) -> HeartbeatAction {
    match result {
        HeartbeatResult::Success => HeartbeatAction { sleep_secs: interval, report: false },
        HeartbeatResult::BadStatus => HeartbeatAction {
            sleep_secs: heartbeat_retry_spec(interval),
            report: false,
        },
        HeartbeatResult::TransportError => HeartbeatAction {
            sleep_secs: heartbeat_retry_spec(interval),
            report: true,
        },
    }
}

/// Decides the sleep after a probe, and whether its failure is reported.
pub fn heartbeat_action(interval: u64, result: HeartbeatResult) -> (r: HeartbeatAction)
    ensures
        r == heartbeat_spec(interval, result),
{
    let half = interval / 2;
    let retry = if half > MIN_HEARTBEAT_RETRY_SECS {
        half
    } else {
        MIN_HEARTBEAT_RETRY_SECS
    };
    match result {
        HeartbeatResult::Success => HeartbeatAction { sleep_secs: interval, report: false },
        HeartbeatResult::BadStatus => HeartbeatAction { sleep_secs: retry, report: false },
        HeartbeatResult::TransportError => HeartbeatAction { sleep_secs: retry, report: true },
    }
}

} // verus!
