//! The profile-switch session: the order of firmware commands that
//! activates an onboard profile, verifies it, and always hands WootDev
//! ownership back to the keyboard once the session has claimed it.
//!
//! The session is a state machine. The caller performs each action it
//! returns (a command, a sleep, or a wait for the keyboard to report the
//! profile) and feeds back whether it succeeded.
use vstd::prelude::*;

use crate::protocol::{
    ACTIVATE_PROFILE, PROFILE_COUNT, REFRESH_RGB_COLORS, RELOAD_PROFILE, RELOAD_PROFILE_LEGACY,
    WOOT_DEV_INIT, WOOT_DEV_RESET_ALL,
};

verus! {

/// Settle time after `ActivateProfile`.
pub const ACTIVATION_SETTLE_MS: u64 = 100;
/// How long the keyboard may take to report the new profile.
pub const VERIFY_TIMEOUT_MS: u64 = 500;
/// Shortest pause before the legacy reload fallback.
pub const MIN_FALLBACK_DELAY_MS: u64 = 250;

/// What went wrong while the session owned WootDev.
#[derive(Clone, Copy, Debug, PartialEq, Eq, Structural)]
pub enum SwitchFailure {
    /// The keyboard rejected this command.
    Rejected(u8),
    /// The keyboard did not report this profile after activation.
    NotVerified(u8),
}

/// Why a switch did not complete.
#[derive(Clone, Copy, Debug, PartialEq, Eq, Structural)]
pub enum SwitchError {
    /// The slot is outside the onboard range; nothing was sent.
    ProfileOutOfRange(u8),
    /// The keyboard rejected this command.
    Rejected(u8),
    /// The keyboard did not report this profile after activation.
    NotVerified(u8),
    /// The switch failed, and releasing WootDev failed as well.
    CleanupFailed(SwitchFailure),
}

/// Where a session stands.
#[derive(Clone, Copy, Debug, PartialEq, Eq)]
pub enum SwitchPhase {
    Start,
    AwaitInit,
    AwaitActivate,
    Settle,
    AwaitReload,
    FallbackDelay,
    AwaitLegacyReload,
    AwaitVerify,
    /// WootDev release sent; `failure` is what went wrong before it.
    AwaitReset { failure: Option<SwitchFailure> },
    /// The release failed; a last best-effort release was sent.
    AwaitRetryReset { error: SwitchError },
    RefreshDelay,
    AwaitRefresh,
    Finished { result: Result<(), SwitchError> },
}

/// The next thing the caller must do.
#[derive(Clone, Copy, Debug, PartialEq, Eq)]
pub enum SwitchAction {
    /// Send `command` with `profile` as its argument and report whether the
    /// keyboard accepted it.
    Send { command: u8, profile: u8 },
    /// Sleep, then step again.
    Sleep { ms: u64 },
    /// Poll the keyboard until it reports `profile` or `timeout_ms` passes,
    /// and report whether it did.
    AwaitProfile { profile: u8, timeout_ms: u64 },
    /// The session is over.
    Finish(Result<(), SwitchError>),
}

/// A switch to one onboard slot.
#[derive(Clone, Copy, Debug, PartialEq, Eq)]
pub struct ProfileSwitch {
    pub phase: SwitchPhase,
    /// Zero-based onboard slot to activate.
    pub profile: u8,
    /// Modern (v2 or multi-report) device: reload with command 38.
    pub modern: bool,
    pub refresh_lighting: bool,
    pub command_delay_ms: u64,
}

/// Sends the WootDev release.
pub open spec fn release(m: ProfileSwitch, failure: Option<SwitchFailure>) -> (ProfileSwitch, SwitchAction) {
    (
        ProfileSwitch { phase: SwitchPhase::AwaitReset { failure }, ..m },
        SwitchAction::Send { command: WOOT_DEV_RESET_ALL, profile: 0 },
    )
}

/// Ends the session.
pub open spec fn finish(m: ProfileSwitch, result: Result<(), SwitchError>) -> (ProfileSwitch, SwitchAction) {
    (ProfileSwitch { phase: SwitchPhase::Finished { result }, ..m }, SwitchAction::Finish(result))
}

/// The pause before the legacy reload fallback.
pub open spec fn fallback_delay(m: ProfileSwitch) -> u64 {
    if m.command_delay_ms < MIN_FALLBACK_DELAY_MS {
        MIN_FALLBACK_DELAY_MS
    } else {
        m.command_delay_ms
    }
}

/// One step of a session: the state after the outcome `ok` of the last
/// action, and the next action.
pub open spec fn switch_step(m: ProfileSwitch, ok: bool) -> (ProfileSwitch, SwitchAction) {
    let p = m.profile;
    match m.phase {
        SwitchPhase::Start => if p >= PROFILE_COUNT {
            finish(m, Err(SwitchError::ProfileOutOfRange(p)))
        } else {
            (
                ProfileSwitch { phase: SwitchPhase::AwaitInit, ..m },
                SwitchAction::Send { command: WOOT_DEV_INIT, profile: 0 },
            )
        },
        SwitchPhase::AwaitInit => if ok {
            (
                ProfileSwitch { phase: SwitchPhase::AwaitActivate, ..m },
                SwitchAction::Send { command: ACTIVATE_PROFILE, profile: p },
            )
        } else {
            finish(m, Err(SwitchError::Rejected(WOOT_DEV_INIT)))
        },
        SwitchPhase::AwaitActivate => if ok {
            (
                ProfileSwitch { phase: SwitchPhase::Settle, ..m },
                SwitchAction::Sleep { ms: ACTIVATION_SETTLE_MS },
            )
        } else {
            release(m, Some(SwitchFailure::Rejected(ACTIVATE_PROFILE)))
        },
        SwitchPhase::Settle => (
            ProfileSwitch { phase: SwitchPhase::AwaitReload, ..m },
            SwitchAction::Send {
                command: if m.modern { RELOAD_PROFILE } else { RELOAD_PROFILE_LEGACY },
                profile: p,
            },
        ),
        SwitchPhase::AwaitReload => if ok {
            (
                ProfileSwitch { phase: SwitchPhase::AwaitVerify, ..m },
                SwitchAction::AwaitProfile { profile: p, timeout_ms: VERIFY_TIMEOUT_MS },
            )
        } else if m.modern {
            (
                ProfileSwitch { phase: SwitchPhase::FallbackDelay, ..m },
                SwitchAction::Sleep { ms: fallback_delay(m) },
            )
        } else {
            release(m, Some(SwitchFailure::Rejected(RELOAD_PROFILE_LEGACY)))
        },
        SwitchPhase::FallbackDelay => (
            ProfileSwitch { phase: SwitchPhase::AwaitLegacyReload, ..m },
            SwitchAction::Send { command: RELOAD_PROFILE_LEGACY, profile: p },
        ),
        SwitchPhase::AwaitLegacyReload => if ok {
            (
                ProfileSwitch { phase: SwitchPhase::AwaitVerify, ..m },
                SwitchAction::AwaitProfile { profile: p, timeout_ms: VERIFY_TIMEOUT_MS },
            )
        } else {
            release(m, Some(SwitchFailure::Rejected(RELOAD_PROFILE_LEGACY)))
        },
        SwitchPhase::AwaitVerify => if ok {
            release(m, None)
        } else {
            release(m, Some(SwitchFailure::NotVerified(p)))
        },
        SwitchPhase::AwaitReset { failure } => match failure {
            None => if !ok {
                (
                    ProfileSwitch {
                        phase: SwitchPhase::AwaitRetryReset {
                            error: SwitchError::Rejected(WOOT_DEV_RESET_ALL),
                        },
                        ..m
                    },
                    SwitchAction::Send { command: WOOT_DEV_RESET_ALL, profile: 0 },
                )
            } else if m.refresh_lighting && !m.modern {
                (
                    ProfileSwitch { phase: SwitchPhase::RefreshDelay, ..m },
                    SwitchAction::Sleep { ms: m.command_delay_ms },
                )
            } else {
                finish(m, Ok(()))
            },
            Some(f) => if ok {
                finish(
                    m,
                    Err(
                        match f {
                            SwitchFailure::Rejected(c) => SwitchError::Rejected(c),
                            SwitchFailure::NotVerified(q) => SwitchError::NotVerified(q),
                        },
                    ),
                )
            } else {
                (
                    ProfileSwitch {
                        phase: SwitchPhase::AwaitRetryReset { error: SwitchError::CleanupFailed(f) },
                        ..m
                    },
                    SwitchAction::Send { command: WOOT_DEV_RESET_ALL, profile: 0 },
                )
            },
        },
        SwitchPhase::AwaitRetryReset { error } => finish(m, Err(error)),
        SwitchPhase::RefreshDelay => (
            ProfileSwitch { phase: SwitchPhase::AwaitRefresh, ..m },
            SwitchAction::Send { command: REFRESH_RGB_COLORS, profile: p },
        ),
        SwitchPhase::AwaitRefresh => if ok {
            finish(m, Ok(()))
        } else {
            finish(m, Err(SwitchError::Rejected(REFRESH_RGB_COLORS)))
        },
        SwitchPhase::Finished { result } => (m, SwitchAction::Finish(result)),
    }
}

impl ProfileSwitch {
    /// A session that will activate `profile` (zero-based).
    pub fn new(profile: u8, modern: bool, refresh_lighting: bool, command_delay_ms: u64) -> (s:
        Self)
        ensures
            s == (ProfileSwitch {
                phase: SwitchPhase::Start,
                profile,
                modern,
                refresh_lighting,
                command_delay_ms,
            }),
    {
        ProfileSwitch { phase: SwitchPhase::Start, profile, modern, refresh_lighting, command_delay_ms }
    }

    /// Advances the session with the outcome of the last action (ignored at
    /// the start and after a sleep) and returns the next action.
    pub fn step(&mut self, ok: bool) -> (action: SwitchAction)
        ensures
            (*final(self), action) == switch_step(*old(self), ok),
    {
        let p = self.profile;
        match self.phase {
            SwitchPhase::Start => {
                if p >= PROFILE_COUNT {
                    self.finish(Err(SwitchError::ProfileOutOfRange(p)))
                } else {
                    self.phase = SwitchPhase::AwaitInit;
                    SwitchAction::Send { command: WOOT_DEV_INIT, profile: 0 }
                }
            },
            SwitchPhase::AwaitInit => {
                if ok {
                    self.phase = SwitchPhase::AwaitActivate;
                    SwitchAction::Send { command: ACTIVATE_PROFILE, profile: p }
                } else {
                    self.finish(Err(SwitchError::Rejected(WOOT_DEV_INIT)))
                }
            },
            SwitchPhase::AwaitActivate => {
                if ok {
                    self.phase = SwitchPhase::Settle;
                    SwitchAction::Sleep { ms: ACTIVATION_SETTLE_MS }
                } else {
                    self.release(Some(SwitchFailure::Rejected(ACTIVATE_PROFILE)))
                }
            },
            SwitchPhase::Settle => {
                self.phase = SwitchPhase::AwaitReload;
                let command = if self.modern {
                    RELOAD_PROFILE
                } else {
                    RELOAD_PROFILE_LEGACY
                };
                SwitchAction::Send { command, profile: p }
            },
            SwitchPhase::AwaitReload => {
                if ok {
                    self.phase = SwitchPhase::AwaitVerify;
                    SwitchAction::AwaitProfile { profile: p, timeout_ms: VERIFY_TIMEOUT_MS }
                } else if self.modern {
                    self.phase = SwitchPhase::FallbackDelay;
                    let ms = if self.command_delay_ms < MIN_FALLBACK_DELAY_MS {
                        MIN_FALLBACK_DELAY_MS
                    } else {
                        self.command_delay_ms
                    };
                    SwitchAction::Sleep { ms }
                } else {
                    self.release(Some(SwitchFailure::Rejected(RELOAD_PROFILE_LEGACY)))
                }
            },
            SwitchPhase::FallbackDelay => {
                self.phase = SwitchPhase::AwaitLegacyReload;
                SwitchAction::Send { command: RELOAD_PROFILE_LEGACY, profile: p }
            },
            SwitchPhase::AwaitLegacyReload => {
                if ok {
                    self.phase = SwitchPhase::AwaitVerify;
                    SwitchAction::AwaitProfile { profile: p, timeout_ms: VERIFY_TIMEOUT_MS }
                } else {
                    self.release(Some(SwitchFailure::Rejected(RELOAD_PROFILE_LEGACY)))
                }
            },
            SwitchPhase::AwaitVerify => {
                if ok {
                    self.release(None)
                } else {
                    self.release(Some(SwitchFailure::NotVerified(p)))
                }
            },
            SwitchPhase::AwaitReset { failure } => {
                match failure {
                    None => {
                        if !ok {
                            self.phase = SwitchPhase::AwaitRetryReset {
                                error: SwitchError::Rejected(WOOT_DEV_RESET_ALL),
                            };
                            SwitchAction::Send { command: WOOT_DEV_RESET_ALL, profile: 0 }
                        } else if self.refresh_lighting && !self.modern {
                            self.phase = SwitchPhase::RefreshDelay;
                            SwitchAction::Sleep { ms: self.command_delay_ms }
                        } else {
                            self.finish(Ok(()))
                        }
                    },
                    Some(f) => {
                        if ok {
                            let error = match f {
                                SwitchFailure::Rejected(c) => SwitchError::Rejected(c),
                                SwitchFailure::NotVerified(q) => SwitchError::NotVerified(q),
                            };
                            self.finish(Err(error))
                        } else {
                            self.phase = SwitchPhase::AwaitRetryReset {
                                error: SwitchError::CleanupFailed(f),
                            };
                            SwitchAction::Send { command: WOOT_DEV_RESET_ALL, profile: 0 }
                        }
                    },
                }
            },
            SwitchPhase::AwaitRetryReset { error } => self.finish(Err(error)),
            SwitchPhase::RefreshDelay => {
                self.phase = SwitchPhase::AwaitRefresh;
                SwitchAction::Send { command: REFRESH_RGB_COLORS, profile: p }
            },
            SwitchPhase::AwaitRefresh => {
                if ok {
                    self.finish(Ok(()))
                } else {
                    self.finish(Err(SwitchError::Rejected(REFRESH_RGB_COLORS)))
                }
            },
            SwitchPhase::Finished { result } => SwitchAction::Finish(result),
        }
    }

    fn release(&mut self, failure: Option<SwitchFailure>) -> (action: SwitchAction)
        ensures
            (*final(self), action) == release(*old(self), failure),
    {
        self.phase = SwitchPhase::AwaitReset { failure };
        SwitchAction::Send { command: WOOT_DEV_RESET_ALL, profile: 0 }
    }

    fn finish(&mut self, result: Result<(), SwitchError>) -> (action: SwitchAction)
        ensures
            (*final(self), action) == finish(*old(self), result),
    {
        self.phase = SwitchPhase::Finished { result };
        SwitchAction::Finish(result)
    }
}


/// The slot to switch to, or `None` when the keyboard already runs the
/// learned one (an unnecessary switch is skipped).
pub fn switch_target(expected: u8, current: u8) -> (target: Option<u8>)
    ensures
        current == expected ==> target is None,
        current != expected ==> target == Some(expected),
{
    if current == expected {
        None
    } else {
        Some(expected)
    }
}

/// The phases in which the session has claimed WootDev (the keyboard
/// acknowledged `WootDevInit`) and has not yet sent the release.
pub open spec fn holds_wootdev(phase: SwitchPhase) -> bool {
    match phase {
        SwitchPhase::AwaitActivate | SwitchPhase::Settle | SwitchPhase::AwaitReload
        | SwitchPhase::FallbackDelay | SwitchPhase::AwaitLegacyReload
        | SwitchPhase::AwaitVerify => true,
        _ => false,
    }
}

/// Once the keyboard has acknowledged `WootDevInit`, the session does not
/// finish before it has sent `WootDevResetAll`: a step from a phase that
/// holds WootDev never finishes, and the only step out of such a phase
/// sends the release.
pub proof fn lemma_wootdev_released_before_finish(m: ProfileSwitch, ok: bool)
    requires
        holds_wootdev(m.phase),
    ensures
        !(switch_step(m, ok).1 is Finish),
        !holds_wootdev(switch_step(m, ok).0.phase) ==> switch_step(m, ok).1 == (SwitchAction::Send {
            command: WOOT_DEV_RESET_ALL,
            profile: 0,
        }),
{
}

/// A session is claimed only through an acknowledged `WootDevInit`: a step
/// into a phase that holds WootDev starts from one that already did, or
/// from waiting for `WootDevInit` with a positive acknowledgement.
pub proof fn lemma_wootdev_claimed_only_by_init(m: ProfileSwitch, ok: bool)
    requires
        !holds_wootdev(m.phase),
        holds_wootdev(switch_step(m, ok).0.phase),
    ensures
        m.phase == SwitchPhase::AwaitInit,
        ok,
{
}

/// A slot outside the onboard range is refused before any command is sent.
pub proof fn lemma_out_of_range_refused(m: ProfileSwitch, ok: bool)
    requires
        m.phase == SwitchPhase::Start,
        m.profile >= PROFILE_COUNT,
    ensures
        switch_step(m, ok).1 == SwitchAction::Finish(Err(SwitchError::ProfileOutOfRange(m.profile))),
{
}

/// How many steps at most remain before the session finishes.
pub open spec fn switch_rank(phase: SwitchPhase) -> nat {
    match phase {
        SwitchPhase::Start => 12,
        SwitchPhase::AwaitInit => 11,
        SwitchPhase::AwaitActivate => 10,
        SwitchPhase::Settle => 9,
        SwitchPhase::AwaitReload => 8,
        SwitchPhase::FallbackDelay => 7,
        SwitchPhase::AwaitLegacyReload => 6,
        SwitchPhase::AwaitVerify => 5,
        SwitchPhase::AwaitReset { .. } => 4,
        SwitchPhase::AwaitRetryReset { .. } => 3,
        SwitchPhase::RefreshDelay => 2,
        SwitchPhase::AwaitRefresh => 1,
        SwitchPhase::Finished { .. } => 0,
    }
}

/// Every session ends: each step of an unfinished session lowers its rank,
/// so a session finishes within twelve steps whatever the keyboard answers;
/// a finished session stays finished with the same result.
pub proof fn lemma_switch_progresses(m: ProfileSwitch, ok: bool)
    ensures
        !(m.phase is Finished) ==> switch_rank(switch_step(m, ok).0.phase) < switch_rank(m.phase),
        switch_step(m, ok).0.phase is Finished <==> switch_step(m, ok).1 is Finish,
        m.phase is Finished ==> switch_step(m, ok).0 == m && switch_step(m, ok).1
            == SwitchAction::Finish(m.phase->result),
{
}

/// The states and actions of a session run from `m`: step `k` takes
/// `outcomes[k]` as the answer to the action of step `k - 1` (the answer
/// given to the first step is ignored).
pub open spec fn run(m: ProfileSwitch, outcomes: Seq<bool>) -> Seq<(ProfileSwitch, SwitchAction)>
    decreases outcomes.len(),
{
    if outcomes.len() == 0 {
        Seq::empty()
    } else {
        let (next, action) = switch_step(m, outcomes[0]);
        seq![(next, action)] + run(next, outcomes.drop_first())
    }
}

/// The state of the run before step `k`.
pub open spec fn state_before(m: ProfileSwitch, outcomes: Seq<bool>, k: int) -> ProfileSwitch {
    if k == 0 {
        m
    } else {
        run(m, outcomes)[k - 1].0
    }
}

/// `action` sends a profile reload (modern or legacy) for `profile`.
pub open spec fn is_reload(action: SwitchAction, profile: u8) -> bool {
    action == (SwitchAction::Send { command: RELOAD_PROFILE, profile })
        || action == (SwitchAction::Send { command: RELOAD_PROFILE_LEGACY, profile })
}

/// `action` waits for the keyboard to report `profile`.
pub open spec fn is_profile_check(action: SwitchAction, profile: u8) -> bool {
    action matches SwitchAction::AwaitProfile { profile: q, .. } && q == profile
}

/// Some action before step `k` was a reload of the target that the keyboard
/// acknowledged.
pub open spec fn reload_acknowledged(m: ProfileSwitch, outcomes: Seq<bool>, k: int) -> bool {
    exists|i: int|
        0 <= i < k && #[trigger] is_reload(run(m, outcomes)[i].1, m.profile) && outcomes[i + 1]
}

/// Before step `k`, the keyboard acknowledged a reload of the target and,
/// after it, reported the target profile.
pub open spec fn switch_verified(m: ProfileSwitch, outcomes: Seq<bool>, k: int) -> bool {
    exists|i: int, j: int|
        #![trigger is_reload(run(m, outcomes)[i].1, m.profile), is_profile_check(run(m, outcomes)[j].1, m.profile)]
        0 <= i < j < k && is_reload(run(m, outcomes)[i].1, m.profile) && outcomes[i + 1]
            && is_profile_check(run(m, outcomes)[j].1, m.profile) && outcomes[j + 1]
}

proof fn lemma_run_len(m: ProfileSwitch, outcomes: Seq<bool>)
    ensures
        run(m, outcomes).len() == outcomes.len(),
    decreases outcomes.len(),
{
    if outcomes.len() > 0 {
        lemma_run_len(switch_step(m, outcomes[0]).0, outcomes.drop_first());
    }
}

/// Step `k` of a run is one `switch_step` from the state before it.
proof fn lemma_run_step(m: ProfileSwitch, outcomes: Seq<bool>, k: int)
    requires
        0 <= k < outcomes.len(),
    ensures
        run(m, outcomes).len() == outcomes.len(),
        run(m, outcomes)[k] == switch_step(state_before(m, outcomes, k), outcomes[k]),
    decreases outcomes.len(),
{
    lemma_run_len(m, outcomes);
    let next = switch_step(m, outcomes[0]).0;
    let rest = outcomes.drop_first();
    lemma_run_len(next, rest);
    if k > 0 {
        lemma_run_step(next, rest, k - 1);
        assert(run(m, outcomes)[k] == run(next, rest)[k - 1]);
        assert(rest[k - 1] == outcomes[k]);
        if k > 1 {
            assert(run(m, outcomes)[k - 1] == run(next, rest)[k - 2]);
        }
    }
}

/// The phases reached only after the target profile was verified.
pub open spec fn verified_phase(phase: SwitchPhase) -> bool {
    match phase {
        SwitchPhase::AwaitReset { failure: None } | SwitchPhase::RefreshDelay
        | SwitchPhase::AwaitRefresh => true,
        SwitchPhase::Finished { result: Ok(()) } => true,
        _ => false,
    }
}

/// What a run from a fresh session has done by step `k`.
proof fn lemma_session_history(m: ProfileSwitch, outcomes: Seq<bool>, k: int)
    requires
        m.phase == SwitchPhase::Start,
        0 <= k < outcomes.len(),
    ensures
        ({
            let s = run(m, outcomes)[k].0;
            let a = run(m, outcomes)[k].1;
            &&& s == (ProfileSwitch { phase: s.phase, ..m })
            &&& (s.phase == SwitchPhase::AwaitReload || s.phase == SwitchPhase::AwaitLegacyReload)
                ==> is_reload(a, m.profile)
            &&& s.phase == SwitchPhase::AwaitVerify ==> is_profile_check(a, m.profile)
                && reload_acknowledged(m, outcomes, k)
            &&& verified_phase(s.phase) ==> switch_verified(m, outcomes, k)
            &&& a == SwitchAction::Finish(Ok(())) ==> s.phase == (SwitchPhase::Finished {
                result: Ok(()),
            })
        }),
    decreases k,
{
    lemma_run_step(m, outcomes, k);
    let r = run(m, outcomes);
    if k > 0 {
        lemma_session_history(m, outcomes, k - 1);
        let prev = r[k - 1].0;
        let s = r[k].0;
        assert(r[k] == switch_step(prev, outcomes[k]));
        if s.phase == SwitchPhase::AwaitVerify {
            assert(is_reload(r[k - 1].1, m.profile) && outcomes[(k - 1) + 1]);
        }
        if verified_phase(s.phase) {
            if prev.phase == SwitchPhase::AwaitVerify {
                let i = choose|i: int|
                    0 <= i < k - 1 && #[trigger] is_reload(r[i].1, m.profile) && outcomes[i + 1];
                assert(is_profile_check(r[k - 1].1, m.profile) && outcomes[(k - 1) + 1]);
                assert(is_reload(r[i].1, m.profile) && is_profile_check(r[k - 1].1, m.profile));
            } else {
                assert(verified_phase(prev.phase));
                let (i, j) = choose|i: int, j: int|
                    #![trigger is_reload(r[i].1, m.profile), is_profile_check(r[j].1, m.profile)]
                    0 <= i < j < k - 1 && is_reload(r[i].1, m.profile) && outcomes[i + 1]
                        && is_profile_check(r[j].1, m.profile) && outcomes[j + 1];
                assert(is_reload(r[i].1, m.profile) && is_profile_check(r[j].1, m.profile));
            }
        }
    }
}

/// A session reports success only after the keyboard acknowledged a reload
/// of the target profile and then reported that profile: whatever the
/// keyboard answers, no run from a fresh session finishes with `Ok(())`
/// before an acknowledged reload followed by a positive profile check.
pub proof fn lemma_success_only_after_verified_reload(
    m: ProfileSwitch,
    outcomes: Seq<bool>,
    k: int,
)
    requires
        m.phase == SwitchPhase::Start,
        0 <= k < outcomes.len(),
        run(m, outcomes)[k].1 == SwitchAction::Finish(Ok(())),
    ensures
        exists|i: int, j: int|
            #![trigger is_reload(run(m, outcomes)[i].1, m.profile), is_profile_check(run(m, outcomes)[j].1, m.profile)]
            0 <= i < j < k && is_reload(run(m, outcomes)[i].1, m.profile) && outcomes[i + 1]
                && is_profile_check(run(m, outcomes)[j].1, m.profile) && outcomes[j + 1],
{
    lemma_session_history(m, outcomes, k);
}

/// Every command of a session carries the target profile, except
/// `WootDevInit` and the WootDev release, which carry 0; the session's
/// target and settings never change while it runs.
pub proof fn lemma_commands_target_the_profile(m: ProfileSwitch, outcomes: Seq<bool>, k: int)
    requires
        0 <= k < outcomes.len(),
    ensures
        run(m, outcomes)[k].0 == (ProfileSwitch { phase: run(m, outcomes)[k].0.phase, ..m }),
        run(m, outcomes)[k].1 matches SwitchAction::Send { command, profile } ==> (
        if command == WOOT_DEV_INIT || command == WOOT_DEV_RESET_ALL {
            profile == 0
        } else {
            profile == m.profile
        }),
    decreases k,
{
    lemma_run_step(m, outcomes, k);
    if k > 0 {
        lemma_commands_target_the_profile(m, outcomes, k - 1);
    }
}

/// On a legacy device a rejected reload is a failure: the session releases
/// WootDev and, once the release is acknowledged, finishes with the
/// rejection of `ReloadProfile0`, without verifying the profile.
pub proof fn lemma_rejected_legacy_reload_fails(m: ProfileSwitch)
    requires
        m.phase == SwitchPhase::AwaitReload,
        !m.modern,
    ensures
        switch_step(m, false).1 == (SwitchAction::Send { command: WOOT_DEV_RESET_ALL, profile: 0 }),
        switch_step(switch_step(m, false).0, true).1 == SwitchAction::Finish(
            Err(SwitchError::Rejected(RELOAD_PROFILE_LEGACY)),
        ),
{
}

/// When a modern device rejects `ReloadProfile`, the session waits the
/// command delay (at least 250 ms) and then sends the legacy
/// `ReloadProfile0` for the same profile.
pub proof fn lemma_rejected_modern_reload_falls_back(m: ProfileSwitch)
    requires
        m.phase == SwitchPhase::AwaitReload,
        m.modern,
    ensures
        switch_step(m, false).1 == (SwitchAction::Sleep {
            ms: if m.command_delay_ms < 250 {
                250
            } else {
                m.command_delay_ms
            },
        }),
        switch_step(switch_step(m, false).0, true).1 == (SwitchAction::Send {
            command: RELOAD_PROFILE_LEGACY,
            profile: m.profile,
        }),
{
}

/// The documented pipeline: when the keyboard acknowledges every command
/// and reports the new profile, a session for an onboard slot sends
/// `WootDevInit`, `ActivateProfile`, waits 100 ms, reloads the profile
/// (command 38 on modern devices, 7 on legacy ones), checks the profile
/// within 500 ms, releases WootDev, and, on legacy devices with lighting
/// refresh, waits the command delay and refreshes the profile's RGB.
pub proof fn lemma_acknowledged_pipeline(m: ProfileSwitch)
    requires
        m.phase == SwitchPhase::Start,
        m.profile < PROFILE_COUNT,
    ensures
        ({
            let r = run(m, seq![true, true, true, true, true, true, true, true, true]);
            let p = m.profile;
            &&& r[0].1 == (SwitchAction::Send { command: WOOT_DEV_INIT, profile: 0 })
            &&& r[1].1 == (SwitchAction::Send { command: ACTIVATE_PROFILE, profile: p })
            &&& r[2].1 == (SwitchAction::Sleep { ms: 100 })
            &&& r[3].1 == (SwitchAction::Send {
                command: if m.modern { RELOAD_PROFILE } else { RELOAD_PROFILE_LEGACY },
                profile: p,
            })
            &&& r[4].1 == (SwitchAction::AwaitProfile { profile: p, timeout_ms: 500 })
            &&& r[5].1 == (SwitchAction::Send { command: WOOT_DEV_RESET_ALL, profile: 0 })
            &&& if m.refresh_lighting && !m.modern {
                &&& r[6].1 == (SwitchAction::Sleep { ms: m.command_delay_ms })
                &&& r[7].1 == (SwitchAction::Send { command: REFRESH_RGB_COLORS, profile: p })
                &&& r[8].1 == SwitchAction::Finish(Ok(()))
            } else {
                r[6].1 == SwitchAction::Finish(Ok(()))
            }
        }),
{
    let o = seq![true, true, true, true, true, true, true, true, true];
    lemma_run_step(m, o, 0);
    lemma_run_step(m, o, 1);
    lemma_run_step(m, o, 2);
    lemma_run_step(m, o, 3);
    lemma_run_step(m, o, 4);
    lemma_run_step(m, o, 5);
    lemma_run_step(m, o, 6);
    lemma_run_step(m, o, 7);
    lemma_run_step(m, o, 8);
    assert(run(m, o)[0] == switch_step(state_before(m, o, 0), o[0]));
    assert(run(m, o)[1] == switch_step(state_before(m, o, 1), o[1]));
    assert(run(m, o)[2] == switch_step(state_before(m, o, 2), o[2]));
    assert(run(m, o)[3] == switch_step(state_before(m, o, 3), o[3]));
    assert(run(m, o)[4] == switch_step(state_before(m, o, 4), o[4]));
    assert(run(m, o)[5] == switch_step(state_before(m, o, 5), o[5]));
    assert(run(m, o)[6] == switch_step(state_before(m, o, 6), o[6]));
    assert(run(m, o)[7] == switch_step(state_before(m, o, 7), o[7]));
    assert(run(m, o)[8] == switch_step(state_before(m, o, 8), o[8]));
}

} // verus!
