//! The change watcher's decisions. File events do not rebuild the index
//! at once: each one opens, or opens anew, a quiet period, and the index
//! is rebuilt once when a quiet period runs out. The caller owns the
//! clock, the event queue and the rebuild; it hands in what happened and
//! performs what comes back.

use crate::error::ContentError;
use vstd::prelude::*;

verus! {

/// The length of the quiet period, in milliseconds.
pub const QUIET_PERIOD_MS: u64 = 100;

/// What happened to a file, as the file system reports it.
#[derive(Clone, Copy, Debug, PartialEq, Eq, Structural)]
pub enum ChangeKind {
    /// Something that the platform does not tell apart.
    Any,
    /// A file was opened, read or closed.
    Access,
    Create,
    Modify,
    Remove,
    Other,
}

/// Whether a report is a reason to rebuild: a file was made, changed or
/// taken away.
pub fn is_relevant(kind: ChangeKind) -> (r: bool)
    ensures
        r == (kind is Create || kind is Modify || kind is Remove),
{
    match kind {
        ChangeKind::Create | ChangeKind::Modify | ChangeKind::Remove => true,
        _ => false,
    }
}

/// Where the watcher stands.
#[derive(Clone, Copy, Debug, PartialEq, Eq, Structural)]
pub enum WatcherState {
    /// Nothing has changed since the last rebuild.
    Idle,
    /// Something has changed; the quiet period runs until `deadline`.
    Pending { deadline: u64 },
    /// A rebuild is under way. `dirty` says that something has changed
    /// since it began.
    Rebuilding { dirty: bool },
    /// The event queue is closed; the watcher has ended.
    Stopped,
}

/// What the caller hands in. Times are in milliseconds on the caller's
/// clock, which does not run backwards.
#[derive(Clone, Copy, Debug, PartialEq, Eq, Structural)]
pub enum WatcherEvent {
    /// A file was made, changed or taken away.
    Changed { at: u64 },
    /// The timer that the caller set has run out.
    TimerFired { now: u64 },
    /// The rebuild has ended, well or not.
    RebuildFinished { ok: bool, at: u64 },
    /// The event queue is closed.
    Closed,
}

/// What the caller is to do next.
#[derive(Clone, Copy, Debug, PartialEq, Eq, Structural)]
pub enum WatcherAction {
    /// Wait for the next event.
    Wait,
    /// Wait for the next event, or for the clock to reach `deadline`.
    WaitUntil { deadline: u64 },
    /// Rebuild the index, and report how it ended.
    Rebuild,
    /// Leave the loop.
    Stop,
}

/// A state and the action that goes with the step into it.
#[derive(Clone, Copy, Debug, PartialEq, Eq, Structural)]
pub struct Step {
    pub state: WatcherState,
    pub action: WatcherAction,
}

/// The end of the quiet period that opens at `at`.
pub open spec fn deadline_after(at: u64) -> u64 {
    if at + QUIET_PERIOD_MS > u64::MAX {
        u64::MAX
    } else {
        (at + QUIET_PERIOD_MS) as u64
    }
}

/// The watcher's step on an event.
///
/// A change opens a quiet period or opens it anew; during a rebuild it is
/// only noted. The timer starts the rebuild once the quiet period is
/// over. The end of a rebuild, whether it went well or not, leads back to
/// waiting, with a new quiet period where something changed meanwhile.
/// Only the closing of the queue ends the watcher.
pub open spec fn next_step(state: WatcherState, event: WatcherEvent) -> Step {
    match (state, event) {
        (WatcherState::Stopped, _) => Step {
            state: WatcherState::Stopped,
            action: WatcherAction::Stop,
        },
        (_, WatcherEvent::Closed) => Step {
            state: WatcherState::Stopped,
            action: WatcherAction::Stop,
        },
        (WatcherState::Idle, WatcherEvent::Changed { at }) => Step {
            state: WatcherState::Pending { deadline: deadline_after(at) },
            action: WatcherAction::WaitUntil { deadline: deadline_after(at) },
        },
        (WatcherState::Idle, _) => Step { state: WatcherState::Idle, action: WatcherAction::Wait },
        (WatcherState::Pending { deadline }, WatcherEvent::Changed { at }) => Step {
            state: WatcherState::Pending { deadline: deadline_after(at) },
            action: WatcherAction::WaitUntil { deadline: deadline_after(at) },
        },
        (WatcherState::Pending { deadline }, WatcherEvent::TimerFired { now }) => if now
            >= deadline {
            Step { state: WatcherState::Rebuilding { dirty: false }, action: WatcherAction::Rebuild }
        } else {
            Step { state, action: WatcherAction::WaitUntil { deadline } }
        },
        (WatcherState::Pending { deadline }, WatcherEvent::RebuildFinished { .. }) => Step {
            state,
            action: WatcherAction::WaitUntil { deadline },
        },
        (WatcherState::Rebuilding { dirty }, WatcherEvent::Changed { at }) => Step {
            state: WatcherState::Rebuilding { dirty: true },
            action: WatcherAction::Wait,
        },
        (WatcherState::Rebuilding { dirty }, WatcherEvent::TimerFired { now }) => Step {
            state,
            action: WatcherAction::Wait,
        },
        (WatcherState::Rebuilding { dirty }, WatcherEvent::RebuildFinished { ok, at }) => if dirty {
            Step {
                state: WatcherState::Pending { deadline: deadline_after(at) },
                action: WatcherAction::WaitUntil { deadline: deadline_after(at) },
            }
        } else {
            Step { state: WatcherState::Idle, action: WatcherAction::Wait }
        },
    }
}

/// Where the watcher starts: idle and waiting, once the watch on the
/// posts directory stands. Without the watch there is no watcher.
pub fn start(subscribed: bool) -> (r: Result<Step, ContentError>)
    ensures
        r == if subscribed {
            Ok::<_, ContentError>(Step { state: WatcherState::Idle, action: WatcherAction::Wait })
        } else {
            Err::<Step, _>(ContentError::WatchSubscriptionFailed)
        },
{
    if subscribed {
        Ok(Step { state: WatcherState::Idle, action: WatcherAction::Wait })
    } else {
        Err(ContentError::WatchSubscriptionFailed)
    }
}

fn quiet_until(at: u64) -> (deadline: u64)
    ensures
        deadline == deadline_after(at),
{
    if at > u64::MAX - QUIET_PERIOD_MS {
        u64::MAX
    } else {
        at + QUIET_PERIOD_MS
    }
}

/// Takes the watcher from a state through an event.
pub fn step(state: WatcherState, event: WatcherEvent) -> (r: Step)
    ensures
        r == next_step(state, event),
{
    match state {
        WatcherState::Stopped => Step { state: WatcherState::Stopped, action: WatcherAction::Stop },
        WatcherState::Idle => match event {
            WatcherEvent::Closed => Step {
                state: WatcherState::Stopped,
                action: WatcherAction::Stop,
            },
            WatcherEvent::Changed { at } => {
                let deadline = quiet_until(at);
                Step {
                    state: WatcherState::Pending { deadline },
                    action: WatcherAction::WaitUntil { deadline },
                }
            },
            _ => Step { state: WatcherState::Idle, action: WatcherAction::Wait },
        },
        WatcherState::Pending { deadline } => match event {
            WatcherEvent::Closed => Step {
                state: WatcherState::Stopped,
                action: WatcherAction::Stop,
            },
            WatcherEvent::Changed { at } => {
                let deadline = quiet_until(at);
                Step {
                    state: WatcherState::Pending { deadline },
                    action: WatcherAction::WaitUntil { deadline },
                }
            },
            WatcherEvent::TimerFired { now } => {
                if now >= deadline {
                    Step {
                        state: WatcherState::Rebuilding { dirty: false },
                        action: WatcherAction::Rebuild,
                    }
                } else {
                    Step { state, action: WatcherAction::WaitUntil { deadline } }
                }
            },
            WatcherEvent::RebuildFinished { .. } => Step {
                state,
                action: WatcherAction::WaitUntil { deadline },
            },
        },
        WatcherState::Rebuilding { dirty } => match event {
            WatcherEvent::Closed => Step {
                state: WatcherState::Stopped,
                action: WatcherAction::Stop,
            },
            WatcherEvent::Changed { .. } => Step {
                state: WatcherState::Rebuilding { dirty: true },
                action: WatcherAction::Wait,
            },
            WatcherEvent::TimerFired { .. } => Step { state, action: WatcherAction::Wait },
            WatcherEvent::RebuildFinished { at, .. } => {
                if dirty {
                    let deadline = quiet_until(at);
                    Step {
                        state: WatcherState::Pending { deadline },
                        action: WatcherAction::WaitUntil { deadline },
                    }
                } else {
                    Step { state: WatcherState::Idle, action: WatcherAction::Wait }
                }
            },
        },
    }
}

/// The state after a run of events.
pub open spec fn state_after(state: WatcherState, events: Seq<WatcherEvent>) -> WatcherState
    decreases events.len(),
{
    if events.len() == 0 {
        state
    } else {
        next_step(state_after(state, events.drop_last()), events.last()).state
    }
}

/// The number of rebuilds that a run of events starts.
pub open spec fn rebuilds_started(state: WatcherState, events: Seq<WatcherEvent>) -> nat
    decreases events.len(),
{
    if events.len() == 0 {
        0
    } else {
        let before = rebuilds_started(state, events.drop_last());
        if next_step(state_after(state, events.drop_last()), events.last()).action
            == WatcherAction::Rebuild {
            before + 1
        } else {
            before
        }
    }
}

/// The changes at the given times, as events.
pub open spec fn changes(times: Seq<u64>) -> Seq<WatcherEvent> {
    times.map_values(|at: u64| WatcherEvent::Changed { at })
}

/// Changes alone start no rebuild: after any number of them, at least
/// one, an idle watcher waits for the quiet period of the last.
pub proof fn lemma_changes_only_wait(times: Seq<u64>)
    requires
        times.len() > 0,
    ensures
        rebuilds_started(WatcherState::Idle, changes(times)) == 0,
        state_after(WatcherState::Idle, changes(times)) == (WatcherState::Pending {
            deadline: deadline_after(times.last()),
        }),
    decreases times.len(),
{
    let events = changes(times);
    assert(events.drop_last() =~= changes(times.drop_last()));
    assert(events.last() == WatcherEvent::Changed { at: times.last() });
    if times.len() > 1 {
        lemma_changes_only_wait(times.drop_last());
    } else {
        assert(events.drop_last().len() == 0);
    }
}

/// A burst of changes is answered with one rebuild: however many changes
/// reach an idle watcher before the timer runs out, the timer that fires
/// once the last quiet period is over starts exactly one.
pub proof fn lemma_burst_gives_one_rebuild(times: Seq<u64>, now: u64)
    requires
        times.len() > 0,
        now >= deadline_after(times.last()),
    ensures
        rebuilds_started(
            WatcherState::Idle,
            changes(times).push(WatcherEvent::TimerFired { now }),
        ) == 1,
        state_after(WatcherState::Idle, changes(times).push(WatcherEvent::TimerFired { now }))
            == (WatcherState::Rebuilding { dirty: false }),
{
    let run = changes(times).push(WatcherEvent::TimerFired { now });
    assert(run.drop_last() =~= changes(times));
    lemma_changes_only_wait(times);
}

/// Nothing but the closing of the queue ends the watcher: a rebuild that
/// fails leaves it running, as one that went well does.
pub proof fn lemma_only_close_stops(state: WatcherState, event: WatcherEvent)
    requires
        state != WatcherState::Stopped,
        event != WatcherEvent::Closed,
    ensures
        next_step(state, event).state != WatcherState::Stopped,
        next_step(state, event).action != WatcherAction::Stop,
        event matches WatcherEvent::RebuildFinished { ok, at } ==> next_step(state, event)
            == next_step(state, WatcherEvent::RebuildFinished { ok: !ok, at }),
{
}

/// No rebuild starts while another is under way: a rebuild starts only
/// from the wait for a quiet period, and the watcher leaves a rebuild
/// only when it is told that the rebuild has ended, or that the queue is
/// closed.
pub proof fn lemma_one_rebuild_at_a_time(state: WatcherState, event: WatcherEvent)
    ensures
        next_step(state, event).action == WatcherAction::Rebuild ==> state is Pending,
        state is Rebuilding && !(event is RebuildFinished) && !(event is Closed) ==> next_step(
            state,
            event,
        ).state is Rebuilding,
{
}

} // verus!
