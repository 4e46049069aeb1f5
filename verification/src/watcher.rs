//! Decisions of the background watcher: when to look at the keyboard, when
//! to enforce the saved profile, and when to give up on a keyboard that no
//! longer answers. Times are milliseconds on the caller's monotonic clock.
use vstd::prelude::*;

use crate::protocol::{legacy_state_spec, should_enforce, KeyboardState, WootDevOwnership};

verus! {

/// Consecutive failed state queries after which the keyboard is treated as
/// disconnected.
pub const STATE_QUERY_FAILURES_BEFORE_DISCONNECT: u8 = 3;

/// The watcher's schedule and failure count.
#[derive(Clone, Copy, Debug, PartialEq, Eq, Structural)]
pub struct Watcher {
    pub consecutive_state_errors: u8,
    pub next_device_check: u64,
    pub next_enforcement_check: u64,
    /// Milliseconds between lightweight device checks.
    pub interval_ms: u64,
    /// Enforce even when the configuration does not ask for it.
    pub enforce_override: bool,
}

/// What to do after a failed state query.
#[derive(Clone, Copy, Debug, PartialEq, Eq, Structural)]
pub struct FailureOutcome {
    /// This was the first failure in a row: log that a retry follows.
    pub log_retry: bool,
    /// Drop the keyboard and look for it again.
    pub disconnect: bool,
}

/// `a + b`, or the largest time when that overflows.
pub open spec fn later(a: u64, b: u64) -> u64 {
    if a + b > u64::MAX {
        u64::MAX
    } else {
        (a + b) as u64
    }
}

/// The failure count and outcome after one more failed state query.
pub open spec fn failure_step(errors: u8) -> (u8, FailureOutcome) {
    let e = if errors == u8::MAX {
        u8::MAX
    } else {
        (errors + 1) as u8
    };
    if e >= STATE_QUERY_FAILURES_BEFORE_DISCONNECT {
        (0, FailureOutcome { log_retry: e == 1, disconnect: true })
    } else {
        (e, FailureOutcome { log_retry: e == 1, disconnect: false })
    }
}

impl Watcher {
    /// A watcher that checks the device and may enforce right away.
    pub fn new(now: u64, interval_ms: u64, enforce_override: bool) -> (w: Self)
        ensures
            w == (Watcher {
                consecutive_state_errors: 0,
                next_device_check: now,
                next_enforcement_check: now,
                interval_ms,
                enforce_override,
            }),
    {
        Watcher {
            consecutive_state_errors: 0,
            next_device_check: now,
            next_enforcement_check: now,
            interval_ms,
            enforce_override,
        }
    }

    /// Whether the device check is due at `now`.
    pub fn device_check_due(&self, now: u64) -> (r: bool)
        ensures
            r == (now >= self.next_device_check),
    {
        now >= self.next_device_check
    }

    /// A keyboard was found: the failure count starts again.
    pub fn on_connected(&mut self)
        ensures
            *final(self) == (Watcher { consecutive_state_errors: 0, ..*old(self) }),
    {
        self.consecutive_state_errors = 0;
    }

    /// The next enforcement attempt waits `enforce_interval_ms` from `now`.
    pub fn schedule_enforcement(&mut self, now: u64, enforce_interval_ms: u64)
        ensures
            *final(self) == (Watcher {
                next_enforcement_check: later(now, enforce_interval_ms),
                ..*old(self)
            }),
    {
        self.next_enforcement_check = now.saturating_add(enforce_interval_ms);
    }

    /// The next device check waits `delay_ms` from `now`.
    pub fn schedule_device_check(&mut self, now: u64, delay_ms: u64)
        ensures
            *final(self) == (Watcher { next_device_check: later(now, delay_ms), ..*old(self) }),
    {
        self.next_device_check = now.saturating_add(delay_ms);
    }

    /// The keyboard answered a state query. Returns whether the saved
    /// profile must be enforced now: only while WootDev ownership is known
    /// to be inactive, automatic switching is on, enforcement is asked for
    /// (by the configuration or the command line), and the enforcement
    /// interval has passed.
    pub fn on_state(
        &mut self,
        state: KeyboardState,
        now: u64,
        enabled: bool,
        enforce: bool,
    ) -> (due: bool)
        ensures
            *final(self) == (Watcher { consecutive_state_errors: 0, ..*old(self) }),
            due == (should_enforce_spec(state, enabled, old(self).enforce_override || enforce)
                && now >= old(self).next_enforcement_check),
    {
        self.consecutive_state_errors = 0;
        should_enforce(state, enabled, self.enforce_override || enforce) && now
            >= self.next_enforcement_check
    }

    /// After a successful state query (and any enforcement): while
    /// Wootility owns WootDev, enforcement is postponed and polling backs
    /// off to at least the enforcement interval. Returns the delay until
    /// the next device check.
    pub fn after_state(&mut self, state: KeyboardState, now: u64, enforce_interval_ms: u64) -> (delay_ms: u64)
        ensures
            state.wootdev == WootDevOwnership::Active ==> *final(self) == (Watcher {
                next_enforcement_check: later(now, enforce_interval_ms),
                ..*old(self)
            }) && delay_ms == (if old(self).interval_ms >= enforce_interval_ms {
                old(self).interval_ms
            } else {
                enforce_interval_ms
            }),
            state.wootdev != WootDevOwnership::Active ==> *final(self) == *old(self) && delay_ms
                == old(self).interval_ms,
    {
        match state.wootdev {
            WootDevOwnership::Active => {
                self.next_enforcement_check = now.saturating_add(enforce_interval_ms);
                if self.interval_ms >= enforce_interval_ms {
                    self.interval_ms
                } else {
                    enforce_interval_ms
                }
            },
            _ => self.interval_ms,
        }
    }

    /// A state query failed. The first failure in a row is logged; the
    /// third drops the keyboard and starts the count again.
    pub fn on_state_failure(&mut self) -> (outcome: FailureOutcome)
        ensures
            (final(self).consecutive_state_errors, outcome) == failure_step(
                old(self).consecutive_state_errors,
            ),
            *final(self) == (Watcher {
                consecutive_state_errors: final(self).consecutive_state_errors,
                ..*old(self)
            }),
    {
        let e = self.consecutive_state_errors.saturating_add(1);
        let log_retry = e == 1;
        if e >= STATE_QUERY_FAILURES_BEFORE_DISCONNECT {
            self.consecutive_state_errors = 0;
            FailureOutcome { log_retry, disconnect: true }
        } else {
            self.consecutive_state_errors = e;
            FailureOutcome { log_retry, disconnect: false }
        }
    }
}

/// `should_enforce` as a formula.
pub open spec fn should_enforce_spec(state: KeyboardState, enabled: bool, enforce: bool) -> bool {
    state.wootdev == WootDevOwnership::Inactive && enabled && enforce
}

/// Starting from a fresh count, the first two failed state queries keep
/// the keyboard (the first one is logged) and the third drops it and
/// clears the count.
pub proof fn lemma_disconnect_after_three_failures()
    ensures
        failure_step(0) == (1u8, FailureOutcome { log_retry: true, disconnect: false }),
        failure_step(1) == (2u8, FailureOutcome { log_retry: false, disconnect: false }),
        failure_step(2) == (0u8, FailureOutcome { log_retry: false, disconnect: true }),
{
}

/// The failure count never reaches the disconnect threshold: it is reset
/// when the threshold is hit, so every count the watcher holds is below it.
pub proof fn lemma_failure_count_stays_below_threshold(errors: u8)
    requires
        errors < STATE_QUERY_FAILURES_BEFORE_DISCONNECT,
    ensures
        failure_step(errors).0 < STATE_QUERY_FAILURES_BEFORE_DISCONNECT,
        failure_step(errors).1.disconnect <==> errors == STATE_QUERY_FAILURES_BEFORE_DISCONNECT - 1,
{
}

/// A state read through the legacy query (command 11) never makes
/// enforcement due: it does not reveal WootDev ownership, which is then
/// unknown, and only a known-inactive owner allows enforcement.
pub proof fn lemma_legacy_state_never_enforced(
    buffer: Seq<u8>,
    multi_report: bool,
    v2_interface: bool,
    enabled: bool,
    enforce: bool,
)
    ensures
        legacy_state_spec(buffer, multi_report, v2_interface) matches Ok(state) ==> {
            &&& state.wootdev == WootDevOwnership::Unknown
            &&& !should_enforce_spec(state, enabled, enforce)
        },
{
}

} // verus!
