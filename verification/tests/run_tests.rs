use k380_fn_toggle::dispatch::{ToggleResult, WriteOutcome};
use k380_fn_toggle::mode::{mode_from_contents, Mode};
use k380_fn_toggle::run::{Action, Event, Outcome, RunState};

/// Runs the machine against a state file held in `stored` and candidates whose
/// writes come out as `writes`; `transport` and `persist` say whether the HID
/// subsystem comes up and whether the state can be written. Returns the
/// outcome and the payloads written.
fn drive(
    stored: &mut Option<String>,
    transport: bool,
    writes: &[WriteOutcome],
    persist: bool,
) -> (Outcome, Vec<[u8; 7]>) {
    let mut written = Vec::new();
    let (mut state, mut action) = RunState::start();
    for _ in 0..writes.len() + 8 {
        let event = match action {
            Action::LoadState => Event::StateLoaded { current: mode_from_contents(stored.as_deref()) },
            Action::Enumerate => {
                if transport {
                    Event::Enumerated { candidates: writes.len() }
                } else {
                    Event::TransportFailed
                }
            }
            Action::Write { candidate, mode } => {
                assert_eq!(candidate, written.len());
                written.push(mode.payload());
                Event::Wrote { outcome: writes[candidate] }
            }
            Action::Persist { mode } => {
                if persist {
                    *stored = Some(String::from(mode.token()));
                }
                Event::Persisted { ok: persist }
            }
            Action::Report { outcome } => {
                assert_eq!(state, RunState::Finished { outcome });
                assert_eq!(state.step(event_after_end()), None);
                return (outcome, written);
            }
        };
        let (s, a) = state.step(event).unwrap();
        state = s;
        action = a;
    }
    panic!("the run did not end");
}

fn event_after_end() -> Event {
    Event::Persisted { ok: true }
}

#[test]
fn absent_state_switches_to_standard_f_keys() {
    let mut stored = None;
    let (outcome, written) = drive(&mut stored, true, &[WriteOutcome::Written(7)], true);
    assert_eq!(outcome, Outcome::Succeeded);
    assert_eq!(written, vec![[0x10, 0xFF, 0x0B, 0x1E, 0x00, 0x00, 0x00]]);
    assert_eq!(stored.as_deref(), Some("on"));
}

#[test]
fn stored_on_switches_to_media_keys() {
    let mut stored = Some(String::from("on"));
    let (outcome, written) = drive(&mut stored, true, &[WriteOutcome::Written(7)], true);
    assert_eq!(outcome, Outcome::Succeeded);
    assert_eq!(written, vec![[0x10, 0xFF, 0x0B, 0x1E, 0x01, 0x00, 0x00]]);
    assert_eq!(stored.as_deref(), Some("off"));
    assert_ne!(stored.as_deref(), Some("on"));
}

#[test]
fn two_confirmed_runs_come_back_to_media_keys() {
    let mut stored = None;
    assert_eq!(mode_from_contents(stored.as_deref()), Mode::MediaKeys);
    let (first, _) = drive(&mut stored, true, &[WriteOutcome::Written(7)], true);
    assert_eq!(first, Outcome::Succeeded);
    assert_eq!(mode_from_contents(stored.as_deref()), Mode::StandardFKeys);
    let (second, _) = drive(&mut stored, true, &[WriteOutcome::Written(7)], true);
    assert_eq!(second, Outcome::Succeeded);
    assert_eq!(mode_from_contents(stored.as_deref()), Mode::MediaKeys);
}

#[test]
fn no_candidates_is_not_found_and_nothing_is_written() {
    let mut stored = Some(String::from("on"));
    let (outcome, written) = drive(&mut stored, true, &[], true);
    assert_eq!(outcome, Outcome::NotFound);
    assert!(written.is_empty());
    assert_eq!(stored.as_deref(), Some("on"));
}

#[test]
fn a_write_of_zero_bytes_is_blocked() {
    let mut stored = None;
    let (outcome, written) = drive(&mut stored, true, &[WriteOutcome::Written(0)], true);
    assert_eq!(outcome, Outcome::Blocked);
    assert_eq!(written.len(), 1);
    assert_eq!(stored, None);
}

#[test]
fn failures_only_is_blocked_and_nothing_is_persisted() {
    let mut stored = Some(String::from("on"));
    let writes = [WriteOutcome::OpenFailed, WriteOutcome::WriteFailed, WriteOutcome::Written(0)];
    let (outcome, written) = drive(&mut stored, true, &writes, true);
    assert_eq!(outcome, Outcome::Blocked);
    assert_eq!(written.len(), 3);
    assert_eq!(stored.as_deref(), Some("on"));
}

#[test]
fn every_candidate_is_written_to_after_a_success_too() {
    let mut stored = None;
    let writes = [WriteOutcome::OpenFailed, WriteOutcome::Written(7), WriteOutcome::WriteFailed, WriteOutcome::Written(7)];
    let (outcome, written) = drive(&mut stored, true, &writes, true);
    assert_eq!(outcome, Outcome::Succeeded);
    assert_eq!(written, vec![Mode::StandardFKeys.payload(); 4]);
    assert_eq!(stored.as_deref(), Some("on"));
}

#[test]
fn transport_failure_ends_the_run_before_any_device() {
    let mut stored = None;
    let (outcome, written) = drive(&mut stored, false, &[WriteOutcome::Written(7)], true);
    assert_eq!(outcome, Outcome::TransportInitError);
    assert!(written.is_empty());
    assert_eq!(stored, None);
}

#[test]
fn persist_failure_is_reported_apart() {
    let mut stored = Some(String::from("on"));
    let (outcome, written) = drive(&mut stored, true, &[WriteOutcome::Written(7)], false);
    assert_eq!(outcome, Outcome::SucceededButPersistFailed);
    assert_eq!(written.len(), 1);
    assert_eq!(stored.as_deref(), Some("on"));
}

#[test]
fn steps_one_by_one() {
    let (state, action) = RunState::start();
    assert_eq!((state, action), (RunState::Idle, Action::LoadState));
    let (state, action) = state.step(Event::StateLoaded { current: Mode::MediaKeys }).unwrap();
    assert_eq!(state, RunState::Loaded { current: Mode::MediaKeys });
    assert_eq!(action, Action::Enumerate);
    let (state, action) = state.step(Event::Enumerated { candidates: 2 }).unwrap();
    assert_eq!(
        state,
        RunState::Selected {
            target: Mode::StandardFKeys,
            candidates: 2,
            next: 0,
            result: ToggleResult { found: false, success: false },
        }
    );
    assert_eq!(action, Action::Write { candidate: 0, mode: Mode::StandardFKeys });
    let (state, action) = state.step(Event::Wrote { outcome: WriteOutcome::Written(7) }).unwrap();
    assert_eq!(
        state,
        RunState::Selected {
            target: Mode::StandardFKeys,
            candidates: 2,
            next: 1,
            result: ToggleResult { found: true, success: true },
        }
    );
    assert_eq!(action, Action::Write { candidate: 1, mode: Mode::StandardFKeys });
    let (state, action) = state.step(Event::Wrote { outcome: WriteOutcome::OpenFailed }).unwrap();
    assert_eq!(
        state,
        RunState::Dispatched {
            target: Mode::StandardFKeys,
            result: ToggleResult { found: true, success: true },
        }
    );
    assert_eq!(action, Action::Persist { mode: Mode::StandardFKeys });
    let (state, action) = state.step(Event::Persisted { ok: true }).unwrap();
    assert_eq!(state, RunState::Finished { outcome: Outcome::Succeeded });
    assert_eq!(action, Action::Report { outcome: Outcome::Succeeded });
}

#[test]
fn an_event_that_the_state_does_not_wait_for_is_refused() {
    let loaded = RunState::Loaded { current: Mode::MediaKeys };
    let selected = RunState::Selected {
        target: Mode::StandardFKeys,
        candidates: 1,
        next: 0,
        result: ToggleResult { found: false, success: false },
    };
    let dispatched = RunState::Dispatched {
        target: Mode::StandardFKeys,
        result: ToggleResult { found: true, success: true },
    };
    assert_eq!(RunState::Idle.step(Event::Enumerated { candidates: 1 }), None);
    assert_eq!(RunState::Idle.step(Event::TransportFailed), None);
    assert_eq!(loaded.step(Event::StateLoaded { current: Mode::MediaKeys }), None);
    assert_eq!(loaded.step(Event::Wrote { outcome: WriteOutcome::Written(7) }), None);
    assert_eq!(selected.step(Event::Persisted { ok: true }), None);
    assert_eq!(selected.step(Event::Enumerated { candidates: 1 }), None);
    assert_eq!(dispatched.step(Event::Wrote { outcome: WriteOutcome::Written(7) }), None);
    let finished = RunState::Finished { outcome: Outcome::NotFound };
    assert_eq!(finished.step(Event::StateLoaded { current: Mode::MediaKeys }), None);
    let beyond = RunState::Selected {
        target: Mode::StandardFKeys,
        candidates: 1,
        next: 1,
        result: ToggleResult { found: true, success: false },
    };
    assert_eq!(beyond.step(Event::Wrote { outcome: WriteOutcome::Written(7) }), None);
}
