use blog_content::error::ContentError;
use blog_content::watcher::{
    is_relevant, start, step, ChangeKind, Step, WatcherAction, WatcherEvent, WatcherState,
    QUIET_PERIOD_MS,
};

fn run(start: WatcherState, events: &[WatcherEvent]) -> (WatcherState, usize) {
    let mut state = start;
    let mut rebuilds = 0;
    for event in events {
        let next = step(state, *event);
        if next.action == WatcherAction::Rebuild {
            rebuilds += 1;
        }
        state = next.state;
    }
    (state, rebuilds)
}

#[test]
fn only_changes_to_files_count() {
    assert!(is_relevant(ChangeKind::Create));
    assert!(is_relevant(ChangeKind::Modify));
    assert!(is_relevant(ChangeKind::Remove));
    assert!(!is_relevant(ChangeKind::Any));
    assert!(!is_relevant(ChangeKind::Access));
    assert!(!is_relevant(ChangeKind::Other));
}

#[test]
fn watcher_starts_idle_once_the_watch_stands() {
    assert_eq!(start(true), Ok(Step { state: WatcherState::Idle, action: WatcherAction::Wait }));
    assert_eq!(start(false), Err(ContentError::WatchSubscriptionFailed));
}

#[test]
fn quiet_period_is_a_tenth_of_a_second() {
    assert_eq!(QUIET_PERIOD_MS, 100);
}

#[test]
fn change_opens_a_quiet_period() {
    assert_eq!(
        step(WatcherState::Idle, WatcherEvent::Changed { at: 40 }),
        Step {
            state: WatcherState::Pending { deadline: 140 },
            action: WatcherAction::WaitUntil { deadline: 140 },
        }
    );
}

#[test]
fn further_change_opens_the_quiet_period_anew() {
    assert_eq!(
        step(WatcherState::Pending { deadline: 140 }, WatcherEvent::Changed { at: 139 }),
        Step {
            state: WatcherState::Pending { deadline: 239 },
            action: WatcherAction::WaitUntil { deadline: 239 },
        }
    );
}

#[test]
fn timer_starts_the_rebuild_when_the_quiet_period_is_over() {
    assert_eq!(
        step(WatcherState::Pending { deadline: 140 }, WatcherEvent::TimerFired { now: 140 }),
        Step { state: WatcherState::Rebuilding { dirty: false }, action: WatcherAction::Rebuild }
    );
    assert_eq!(
        step(WatcherState::Pending { deadline: 140 }, WatcherEvent::TimerFired { now: 139 }),
        Step {
            state: WatcherState::Pending { deadline: 140 },
            action: WatcherAction::WaitUntil { deadline: 140 },
        }
    );
}

#[test]
fn ten_changes_in_the_quiet_period_give_one_rebuild() {
    let mut events: Vec<WatcherEvent> =
        (0..10u64).map(|i| WatcherEvent::Changed { at: 1000 + 5 * i }).collect();
    events.push(WatcherEvent::TimerFired { now: 1145 });
    let (state, rebuilds) = run(WatcherState::Idle, &events);
    assert_eq!(rebuilds, 1);
    assert_eq!(state, WatcherState::Rebuilding { dirty: false });
}

#[test]
fn stale_timer_starts_nothing() {
    let events = [
        WatcherEvent::Changed { at: 0 },
        WatcherEvent::Changed { at: 90 },
        WatcherEvent::TimerFired { now: 100 },
        WatcherEvent::Changed { at: 150 },
        WatcherEvent::TimerFired { now: 190 },
        WatcherEvent::TimerFired { now: 250 },
    ];
    let (state, rebuilds) = run(WatcherState::Idle, &events);
    assert_eq!(rebuilds, 1);
    assert_eq!(state, WatcherState::Rebuilding { dirty: false });
}

#[test]
fn two_bursts_give_two_rebuilds() {
    let events = [
        WatcherEvent::Changed { at: 0 },
        WatcherEvent::Changed { at: 10 },
        WatcherEvent::TimerFired { now: 110 },
        WatcherEvent::RebuildFinished { ok: true, at: 130 },
        WatcherEvent::Changed { at: 500 },
        WatcherEvent::Changed { at: 501 },
        WatcherEvent::Changed { at: 502 },
        WatcherEvent::TimerFired { now: 602 },
        WatcherEvent::RebuildFinished { ok: true, at: 640 },
    ];
    let (state, rebuilds) = run(WatcherState::Idle, &events);
    assert_eq!(rebuilds, 2);
    assert_eq!(state, WatcherState::Idle);
}

#[test]
fn change_during_a_rebuild_waits_for_its_end() {
    let events = [
        WatcherEvent::Changed { at: 0 },
        WatcherEvent::TimerFired { now: 100 },
        WatcherEvent::Changed { at: 120 },
        WatcherEvent::Changed { at: 125 },
        WatcherEvent::TimerFired { now: 300 },
    ];
    let (state, rebuilds) = run(WatcherState::Idle, &events);
    assert_eq!(rebuilds, 1);
    assert_eq!(state, WatcherState::Rebuilding { dirty: true });
    assert_eq!(
        step(state, WatcherEvent::RebuildFinished { ok: true, at: 400 }),
        Step {
            state: WatcherState::Pending { deadline: 500 },
            action: WatcherAction::WaitUntil { deadline: 500 },
        }
    );
}

#[test]
fn failed_rebuild_leaves_the_watcher_running() {
    let rebuilding = WatcherState::Rebuilding { dirty: false };
    assert_eq!(
        step(rebuilding, WatcherEvent::RebuildFinished { ok: false, at: 7 }),
        Step { state: WatcherState::Idle, action: WatcherAction::Wait }
    );
    assert_eq!(
        step(rebuilding, WatcherEvent::RebuildFinished { ok: false, at: 7 }),
        step(rebuilding, WatcherEvent::RebuildFinished { ok: true, at: 7 })
    );
    let after = step(WatcherState::Idle, WatcherEvent::Changed { at: 10 });
    assert_eq!(after.state, WatcherState::Pending { deadline: 110 });
}

#[test]
fn closed_queue_ends_the_watcher() {
    let stop = Step { state: WatcherState::Stopped, action: WatcherAction::Stop };
    assert_eq!(step(WatcherState::Idle, WatcherEvent::Closed), stop);
    assert_eq!(step(WatcherState::Pending { deadline: 5 }, WatcherEvent::Closed), stop);
    assert_eq!(step(WatcherState::Rebuilding { dirty: true }, WatcherEvent::Closed), stop);
    assert_eq!(step(WatcherState::Stopped, WatcherEvent::Changed { at: 1 }), stop);
    assert_eq!(step(WatcherState::Stopped, WatcherEvent::TimerFired { now: 1 }), stop);
}

#[test]
fn idle_watcher_passes_over_what_is_no_change() {
    let wait = Step { state: WatcherState::Idle, action: WatcherAction::Wait };
    assert_eq!(step(WatcherState::Idle, WatcherEvent::TimerFired { now: 3 }), wait);
    assert_eq!(step(WatcherState::Idle, WatcherEvent::RebuildFinished { ok: true, at: 3 }), wait);
}

#[test]
fn deadline_stops_at_the_end_of_the_clock() {
    assert_eq!(
        step(WatcherState::Idle, WatcherEvent::Changed { at: u64::MAX - 100 }).state,
        WatcherState::Pending { deadline: u64::MAX }
    );
    assert_eq!(
        step(WatcherState::Idle, WatcherEvent::Changed { at: u64::MAX - 99 }).state,
        WatcherState::Pending { deadline: u64::MAX }
    );
    assert_eq!(
        step(WatcherState::Idle, WatcherEvent::Changed { at: u64::MAX }).state,
        WatcherState::Pending { deadline: u64::MAX }
    );
    assert_eq!(
        step(WatcherState::Idle, WatcherEvent::Changed { at: u64::MAX - 101 }).state,
        WatcherState::Pending { deadline: u64::MAX - 1 }
    );
}
