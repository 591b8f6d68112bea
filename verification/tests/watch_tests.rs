use tui_watcher::watch::{WatchAction, WatchEvent, WatchState};

fn polling(baseline: &str) -> WatchState {
    WatchState::Polling { baseline: baseline.to_string() }
}

fn fetched(v: &str) -> WatchEvent {
    WatchEvent::Fetched(v.to_string())
}

fn baseline_of(state: &WatchState) -> String {
    match state {
        WatchState::Polling { baseline } => baseline.clone(),
        WatchState::Notifying { baseline, .. } => baseline.clone(),
        _ => panic!("state holds no baseline"),
    }
}

#[test]
fn priming_with_stored_value_never_notifies() {
    let (state, action) = WatchState::Priming.step(WatchEvent::Loaded(Some("100".to_string())));
    assert!(matches!(action, WatchAction::Idle));
    assert_eq!(baseline_of(&state), "100");
    // the first fetch matches the primed baseline: still nothing
    let (state, action) = state.step(fetched("100"));
    assert!(matches!(action, WatchAction::Idle));
    assert_eq!(baseline_of(&state), "100");
}

#[test]
fn priming_without_stored_value_fetches_once_and_persists() {
    let (state, action) = WatchState::Priming.step(WatchEvent::Loaded(None));
    assert!(matches!(action, WatchAction::Fetch));
    assert!(matches!(state, WatchState::PrimingFetch));
    let (state, action) = state.step(fetched("42"));
    match action {
        WatchAction::Persist { value } => assert_eq!(value, "42"),
        other => panic!("expected a persist, got {:?}", other),
    }
    assert_eq!(baseline_of(&state), "42");
}

#[test]
fn every_change_is_notified_once() {
    let values = ["b", "c", "d", "e"];
    let mut state = polling("a");
    let mut notices: Vec<(String, String)> = Vec::new();
    let mut persisted: Vec<String> = Vec::new();
    for v in values {
        let (next, action) = state.step(fetched(v));
        state = next;
        match action {
            WatchAction::Notify { previous, current } => {
                notices.push((previous, current));
            }
            other => panic!("expected a notification, got {:?}", other),
        }
        let (next, action) = state.step(WatchEvent::Notified);
        state = next;
        match action {
            WatchAction::Persist { value } => persisted.push(value),
            other => panic!("expected a persist, got {:?}", other),
        }
    }
    assert_eq!(
        notices,
        vec![
            ("a".to_string(), "b".to_string()),
            ("b".to_string(), "c".to_string()),
            ("c".to_string(), "d".to_string()),
            ("d".to_string(), "e".to_string()),
        ]
    );
    assert_eq!(persisted, vec!["b", "c", "d", "e"]);
    assert_eq!(baseline_of(&state), "e");
}

#[test]
fn unchanged_values_are_never_notified() {
    let mut state = polling("100");
    for _ in 0..5 {
        let (next, action) = state.step(fetched("100"));
        state = next;
        assert!(matches!(action, WatchAction::Idle));
        assert_eq!(baseline_of(&state), "100");
    }
}

#[test]
fn restart_resumes_from_the_persisted_value() {
    // persisted slot holds "100"; a change to "150" is fetched, the
    // notification goes out, but the run crashes before it is acknowledged:
    // nothing was persisted in that round
    let slot = "100".to_string();
    let (_state, action) = polling("100").step(fetched("150"));
    assert!(matches!(action, WatchAction::Notify { .. }));
    // no Persist action was seen, so the slot still holds "100"

    // restart: priming from the slot restores the persisted baseline,
    // and the change is detected (and notified) anew
    let (state, action) = WatchState::Priming.step(WatchEvent::Loaded(Some(slot)));
    assert!(matches!(action, WatchAction::Idle));
    assert_eq!(baseline_of(&state), "100");
    let (_state, action) = state.step(fetched("150"));
    match action {
        WatchAction::Notify { previous, current } => {
            assert_eq!(previous, "100");
            assert_eq!(current, "150");
        }
        other => panic!("expected a notification, got {:?}", other),
    }
}

#[test]
fn failed_notification_stops_the_daemon() {
    let (state, action) = polling("100").step(fetched("150"));
    assert!(matches!(action, WatchAction::Notify { .. }));
    let (state, action) = state.step(WatchEvent::NotifyFailed);
    assert!(matches!(action, WatchAction::StopAndAbort));
    assert!(matches!(state, WatchState::Terminated));
}

#[test]
fn baseline_scenario() {
    // baseline = "100" (persisted)
    let mut slot = Some("100".to_string());
    let mut state = WatchState::Priming;
    let mut notices: Vec<(String, String)> = Vec::new();

    let (next, action) = state.step(WatchEvent::Loaded(slot.clone()));
    state = next;
    assert!(matches!(action, WatchAction::Idle));

    // fetch returns "100": no notify, store unchanged
    let (next, action) = state.step(fetched("100"));
    state = next;
    assert!(matches!(action, WatchAction::Idle));
    assert_eq!(slot.as_deref(), Some("100"));

    // fetch returns "150": notify (old 100, new 150) once, store updated
    let (next, action) = state.step(fetched("150"));
    state = next;
    match action {
        WatchAction::Notify { previous, current } => {
            notices.push((previous, current));
        }
        other => panic!("expected a notification, got {:?}", other),
    }
    let (next, action) = state.step(WatchEvent::Notified);
    state = next;
    match action {
        WatchAction::Persist { value } => slot = Some(value),
        other => panic!("expected a persist, got {:?}", other),
    }
    assert_eq!(notices, vec![("100".to_string(), "150".to_string())]);
    assert_eq!(slot.as_deref(), Some("150"));

    // fetch returns "150" again: no notify
    let (next, action) = state.step(fetched("150"));
    state = next;
    assert!(matches!(action, WatchAction::Idle));

    // fetch fails: the loop terminates with a non-zero exit
    let (state, action) = state.step(WatchEvent::FetchFailed);
    assert!(matches!(action, WatchAction::Abort));
    assert!(matches!(state, WatchState::Terminated));
    assert_eq!(notices.len(), 1);
}

#[test]
fn unexpected_events_change_nothing() {
    let (state, action) = polling("7").step(WatchEvent::Notified);
    assert!(matches!(action, WatchAction::Idle));
    assert_eq!(baseline_of(&state), "7");
    let (state, action) = WatchState::Terminated.step(fetched("8"));
    assert!(matches!(action, WatchAction::Idle));
    assert!(matches!(state, WatchState::Terminated));
}
