use audio_inhibit::held::{Action, HeldState};

/// Calls made on the fake inhibitor during a run.
#[derive(Default)]
struct Calls {
    acquires: u32,
    releases: u32,
    next_id: u32,
}

/// One tick as the daemon runs it; `acquire_ok` decides the acquire outcome.
fn tick(state: &mut HeldState<u32>, reading: Option<bool>, acquire_ok: bool, calls: &mut Calls) -> Action {
    let action = state.plan(reading);
    match action {
        Action::Stay => {}
        Action::Acquire => {
            calls.acquires += 1;
            let outcome: Result<u32, String> = if acquire_ok {
                calls.next_id += 1;
                Ok(calls.next_id)
            } else {
                Err("spawn failed".to_string())
            };
            let _ = state.record_acquire(outcome);
        }
        Action::Release => {
            if state.take_for_release().is_some() {
                calls.releases += 1;
            }
        }
    }
    action
}

fn shutdown(state: &mut HeldState<u32>, calls: &mut Calls) {
    if state.take_for_shutdown().is_some() {
        calls.releases += 1;
    }
}

#[test]
fn scenario_false_false_true_acquires_once() {
    let mut state = HeldState::new();
    let mut calls = Calls::default();
    assert_eq!(tick(&mut state, Some(false), true, &mut calls), Action::Stay);
    assert_eq!(tick(&mut state, Some(false), true, &mut calls), Action::Stay);
    assert_eq!(tick(&mut state, Some(true), true, &mut calls), Action::Acquire);
    assert_eq!(calls.acquires, 1);
    assert_eq!(calls.releases, 0);
    assert!(state.is_held());
}

#[test]
fn scenario_true_true_false_acquires_then_releases() {
    let mut state = HeldState::new();
    let mut calls = Calls::default();
    assert_eq!(tick(&mut state, Some(true), true, &mut calls), Action::Acquire);
    assert_eq!(tick(&mut state, Some(true), true, &mut calls), Action::Stay);
    assert_eq!(tick(&mut state, Some(false), true, &mut calls), Action::Release);
    assert_eq!(calls.acquires, 1);
    assert_eq!(calls.releases, 1);
    assert!(!state.is_held());
}

#[test]
fn scenario_probe_error_keeps_inhibitor() {
    let mut state = HeldState::new();
    let mut calls = Calls::default();
    assert_eq!(tick(&mut state, Some(true), true, &mut calls), Action::Acquire);
    assert_eq!(tick(&mut state, None, true, &mut calls), Action::Stay);
    assert!(state.is_held());
    assert_eq!(tick(&mut state, Some(false), true, &mut calls), Action::Release);
    assert_eq!(calls.acquires, 1);
    assert_eq!(calls.releases, 1);
    assert!(!state.is_held());
}

#[test]
fn scenario_cancel_after_first_tick_releases_once() {
    let mut state = HeldState::new();
    let mut calls = Calls::default();
    tick(&mut state, Some(true), true, &mut calls);
    assert!(state.is_held());
    shutdown(&mut state, &mut calls);
    assert_eq!(calls.releases, 1);
    assert!(!state.is_held());
    shutdown(&mut state, &mut calls);
    assert_eq!(calls.releases, 1);
}

#[test]
fn shutdown_while_uninhibited_releases_nothing() {
    let mut state: HeldState<u32> = HeldState::new();
    let mut calls = Calls::default();
    shutdown(&mut state, &mut calls);
    assert_eq!(calls.releases, 0);
    assert!(!state.is_held());
}

#[test]
fn repeated_true_readings_acquire_once() {
    let mut state = HeldState::new();
    let mut calls = Calls::default();
    for _ in 0..5 {
        tick(&mut state, Some(true), true, &mut calls);
    }
    assert_eq!(calls.acquires, 1);
    assert!(state.is_held());
}

#[test]
fn repeated_false_readings_release_nothing() {
    let mut state = HeldState::new();
    let mut calls = Calls::default();
    for _ in 0..5 {
        assert_eq!(tick(&mut state, Some(false), true, &mut calls), Action::Stay);
    }
    assert_eq!(calls.releases, 0);
    assert!(!state.is_held());
}

#[test]
fn failed_probe_leaves_uninhibited_state() {
    let state: HeldState<u32> = HeldState::new();
    assert_eq!(state.plan(None), Action::Stay);
}

#[test]
fn failed_acquire_stays_uninhibited_and_retries_next_tick() {
    let mut state = HeldState::new();
    let mut calls = Calls::default();
    assert_eq!(tick(&mut state, Some(true), false, &mut calls), Action::Acquire);
    assert!(!state.is_held());
    assert_eq!(tick(&mut state, Some(true), true, &mut calls), Action::Acquire);
    assert!(state.is_held());
    assert_eq!(calls.acquires, 2);
}

#[test]
fn record_acquire_keeps_handle_and_error() {
    let mut state: HeldState<u32> = HeldState::new();
    assert_eq!(state.record_acquire(Err::<u32, &str>("no")), Err("no"));
    assert!(!state.is_held());
    assert_eq!(state.record_acquire(Ok::<u32, &str>(7)), Ok(()));
    assert_eq!(state.take_for_release(), Some(7));
    assert_eq!(state.take_for_release(), None);
}

#[test]
fn every_acquisition_released_once_over_mixed_run() {
    let mut state = HeldState::new();
    let mut calls = Calls::default();
    let readings = [Some(true), Some(false), None, Some(true), Some(true), None, Some(false), Some(true)];
    for r in readings {
        tick(&mut state, r, true, &mut calls);
    }
    shutdown(&mut state, &mut calls);
    assert_eq!(calls.acquires, 3);
    assert_eq!(calls.releases, 3);
}
