use pugo::cmd::{WatchAction, WatchEvent, WatchPhase, WatchState};

fn run(mut st: WatchState, events: &[WatchEvent]) -> (WatchState, usize, usize) {
    let mut builds = 0;
    let mut failures = 0;
    for ev in events {
        let (next, action) = st.on_event(*ev);
        if action.start_build {
            builds += 1;
        }
        if action.report_failure {
            failures += 1;
        }
        st = next;
    }
    (st, builds, failures)
}

#[test]
fn test_burst_of_changes_starts_one_build() {
    for m in 1..20 {
        let mut events = vec![WatchEvent::Changed; m];
        events.push(WatchEvent::Tick);
        let (st, builds, failures) = run(WatchState::new(), &events);
        assert_eq!(builds, 1);
        assert_eq!(failures, 0);
        assert_eq!(st.phase, WatchPhase::Building);
        assert!(!st.changed && !st.queued);
    }
}

#[test]
fn test_tick_without_changes_starts_nothing() {
    let (st, builds, _) = run(WatchState::new(), &[WatchEvent::Tick, WatchEvent::Tick]);
    assert_eq!(builds, 0);
    assert_eq!(st, WatchState::new());
}

#[test]
fn test_changes_during_a_build_wait_for_its_end() {
    let events = [
        WatchEvent::Changed,
        WatchEvent::Tick,
        WatchEvent::Changed,
        WatchEvent::Changed,
        WatchEvent::Tick,
        WatchEvent::Changed,
        WatchEvent::Tick,
    ];
    let (st, builds, _) = run(WatchState::new(), &events);
    assert_eq!(builds, 1);
    assert!(st.queued);
    let (next, action) = st.on_event(WatchEvent::Built(true));
    assert_eq!(action, WatchAction { start_build: true, report_failure: false });
    assert_eq!(next.phase, WatchPhase::Building);
    assert!(!next.queued);
    let (last, action) = next.on_event(WatchEvent::Built(true));
    assert_eq!(action, WatchAction { start_build: false, report_failure: false });
    assert_eq!(last, WatchState::new());
}

#[test]
fn test_failed_build_is_reported_and_watching_goes_on() {
    let (st, _, _) = run(WatchState::new(), &[WatchEvent::Changed, WatchEvent::Tick]);
    let (st, action) = st.on_event(WatchEvent::Built(false));
    assert_eq!(action, WatchAction { start_build: false, report_failure: true });
    assert_eq!(st.phase, WatchPhase::Idle);
    let (_, builds, failures) = run(st, &[WatchEvent::Changed, WatchEvent::Tick]);
    assert_eq!((builds, failures), (1, 0));
    let (st, action) = WatchState::new().on_event(WatchEvent::Built(false));
    assert_eq!(action, WatchAction { start_build: false, report_failure: false });
    assert_eq!(st, WatchState::new());
}
