use wooting_host_profile::protocol::{KeyboardState, WootDevOwnership};
use wooting_host_profile::switch::{switch_target, ProfileSwitch, SwitchAction, SwitchError, SwitchFailure};
use wooting_host_profile::watcher::{FailureOutcome, Watcher};

/// Runs a session against scripted outcomes and records the actions.
fn run(mut session: ProfileSwitch, outcomes: &[bool]) -> Vec<SwitchAction> {
    let mut actions = Vec::new();
    let mut action = session.step(true);
    let mut answers = outcomes.iter();
    loop {
        actions.push(action);
        let ok = match action {
            SwitchAction::Finish(_) => break,
            SwitchAction::Sleep { .. } => true,
            _ => *answers.next().expect("an outcome for every command"),
        };
        action = session.step(ok);
    }
    actions
}

fn send(command: u8, profile: u8) -> SwitchAction {
    SwitchAction::Send { command, profile }
}

#[test]
fn modern_switch_follows_the_documented_pipeline() {
    let actions = run(ProfileSwitch::new(1, true, true, 250), &[true, true, true, true, true]);
    assert_eq!(
        actions,
        vec![
            send(33, 0),
            send(23, 1),
            SwitchAction::Sleep { ms: 100 },
            send(38, 1),
            SwitchAction::AwaitProfile { profile: 1, timeout_ms: 500 },
            send(32, 0),
            SwitchAction::Finish(Ok(())),
        ]
    );
}

#[test]
fn rejected_modern_reload_falls_back_to_command_seven() {
    let actions = run(ProfileSwitch::new(2, true, true, 10), &[true, true, false, true, true, true]);
    assert_eq!(
        actions,
        vec![
            send(33, 0),
            send(23, 2),
            SwitchAction::Sleep { ms: 100 },
            send(38, 2),
            SwitchAction::Sleep { ms: 250 },
            send(7, 2),
            SwitchAction::AwaitProfile { profile: 2, timeout_ms: 500 },
            send(32, 0),
            SwitchAction::Finish(Ok(())),
        ]
    );
}

#[test]
fn legacy_switch_refreshes_lighting_after_release() {
    let actions = run(ProfileSwitch::new(0, false, true, 300), &[true, true, true, true, true, true]);
    assert_eq!(
        actions,
        vec![
            send(33, 0),
            send(23, 0),
            SwitchAction::Sleep { ms: 100 },
            send(7, 0),
            SwitchAction::AwaitProfile { profile: 0, timeout_ms: 500 },
            send(32, 0),
            SwitchAction::Sleep { ms: 300 },
            send(29, 0),
            SwitchAction::Finish(Ok(())),
        ]
    );
    let quiet = run(ProfileSwitch::new(0, false, false, 300), &[true, true, true, true, true]);
    assert_eq!(quiet.last(), Some(&SwitchAction::Finish(Ok(()))));
    assert!(!quiet.contains(&send(29, 0)));
}

#[test]
fn failures_after_init_still_release_wootdev() {
    let actions = run(ProfileSwitch::new(3, true, false, 250), &[true, false, true]);
    assert_eq!(
        actions,
        vec![send(33, 0), send(23, 3), send(32, 0), SwitchAction::Finish(Err(SwitchError::Rejected(23)))]
    );
    let unverified = run(ProfileSwitch::new(3, true, false, 250), &[true, true, true, false, true]);
    assert_eq!(unverified[unverified.len() - 2], send(32, 0));
    assert_eq!(unverified.last(), Some(&SwitchAction::Finish(Err(SwitchError::NotVerified(3)))));
}

#[test]
fn failed_release_is_retried_once() {
    let actions = run(ProfileSwitch::new(1, true, false, 250), &[true, true, true, false, false, true]);
    assert_eq!(
        &actions[actions.len() - 3..],
        &[
            send(32, 0),
            send(32, 0),
            SwitchAction::Finish(Err(SwitchError::CleanupFailed(SwitchFailure::NotVerified(1)))),
        ]
    );
    let actions = run(ProfileSwitch::new(1, true, false, 250), &[true, true, true, true, false, false]);
    assert_eq!(actions.last(), Some(&SwitchAction::Finish(Err(SwitchError::Rejected(32)))));
}

#[test]
fn out_of_range_slots_send_nothing() {
    let actions = run(ProfileSwitch::new(4, true, true, 250), &[]);
    assert_eq!(actions, vec![SwitchAction::Finish(Err(SwitchError::ProfileOutOfRange(4)))]);
    let actions = run(ProfileSwitch::new(0, true, true, 250), &[false]);
    assert_eq!(actions, vec![send(33, 0), SwitchAction::Finish(Err(SwitchError::Rejected(33)))]);
}

#[test]
fn skips_the_switch_when_the_profile_is_already_active() {
    assert_eq!(switch_target(2, 2), None);
    assert_eq!(switch_target(2, 0), Some(2));
}

fn state(wootdev: WootDevOwnership) -> KeyboardState {
    KeyboardState { profile: 0, wootdev }
}

#[test]
fn enforcement_waits_for_its_interval_and_inactive_wootdev() {
    let mut watcher = Watcher::new(1_000, 1_000, false);
    assert!(watcher.device_check_due(1_000));
    assert!(watcher.on_state(state(WootDevOwnership::Inactive), 1_000, true, true));
    watcher.schedule_enforcement(1_000, 5_000);
    assert!(!watcher.on_state(state(WootDevOwnership::Inactive), 2_000, true, true));
    assert!(watcher.on_state(state(WootDevOwnership::Inactive), 6_000, true, true));
    assert!(!watcher.on_state(state(WootDevOwnership::Unknown), 6_000, true, true));
    assert!(!watcher.on_state(state(WootDevOwnership::Inactive), 6_000, true, false));
    let forced = Watcher::new(0, 1_000, true);
    let mut forced = forced;
    assert!(forced.on_state(state(WootDevOwnership::Inactive), 0, true, false));
    assert!(!forced.on_state(state(WootDevOwnership::Inactive), 0, false, false));
}

#[test]
fn wootdev_ownership_backs_off_polling() {
    let mut watcher = Watcher::new(0, 1_000, false);
    assert_eq!(watcher.after_state(state(WootDevOwnership::Active), 10, 5_000), 5_000);
    assert_eq!(watcher.next_enforcement_check, 5_010);
    assert_eq!(watcher.after_state(state(WootDevOwnership::Inactive), 20, 5_000), 1_000);
    assert_eq!(watcher.next_enforcement_check, 5_010);
    let mut slow = Watcher::new(0, 9_000, false);
    assert_eq!(slow.after_state(state(WootDevOwnership::Active), 0, 5_000), 9_000);
    watcher.schedule_device_check(u64::MAX - 1, 5);
    assert_eq!(watcher.next_device_check, u64::MAX);
    assert!(!watcher.device_check_due(u64::MAX - 1));
}

#[test]
fn three_failed_queries_drop_the_keyboard() {
    let mut watcher = Watcher::new(0, 1_000, false);
    assert_eq!(watcher.on_state_failure(), FailureOutcome { log_retry: true, disconnect: false });
    assert_eq!(watcher.on_state_failure(), FailureOutcome { log_retry: false, disconnect: false });
    assert_eq!(watcher.on_state_failure(), FailureOutcome { log_retry: false, disconnect: true });
    assert_eq!(watcher.consecutive_state_errors, 0);
    watcher.on_state_failure();
    watcher.on_state(state(WootDevOwnership::Unknown), 0, true, true);
    assert_eq!(watcher.consecutive_state_errors, 0);
    watcher.on_state_failure();
    watcher.on_connected();
    assert_eq!(watcher.consecutive_state_errors, 0);
}
