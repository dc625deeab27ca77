//! The watch loop's decisions: changes seen between two ticks are
//! collapsed into one rebuild, and rebuilds never overlap.

use vstd::prelude::*;

verus! {

/// The interval of the ticker, in milliseconds.
pub const TICK_MILLIS: u64 = 1000;

/// Whether a build is under way.
#[derive(Debug, Clone, Copy, PartialEq, Eq, Structural)]
pub enum WatchPhase {
    Idle,
    Building,
}

/// The state of the watch loop.
#[derive(Debug, Clone, Copy, PartialEq, Eq, Structural)]
pub struct WatchState {
    /// Whether a build is under way.
    pub phase: WatchPhase,
    /// A change was seen since the last tick.
    pub changed: bool,
    /// A rebuild is owed once the build under way is done.
    pub queued: bool,
}

/// What the watch loop is told.
#[derive(Debug, Clone, Copy, PartialEq, Eq, Structural)]
pub enum WatchEvent {
    /// A watched file changed.
    Changed,
    /// The interval of the ticker has passed.
    Tick,
    /// The build under way is done; it succeeded or it failed.
    Built(bool),
}

/// What the watch loop is to do.
#[derive(Debug, Clone, Copy, PartialEq, Eq, Structural)]
pub struct WatchAction {
    /// Start a build.
    pub start_build: bool,
    /// Report that the build failed.
    pub report_failure: bool,
}

/// The state in which nothing has happened and no build is under way.
pub open spec fn idle() -> WatchState {
    WatchState { phase: WatchPhase::Idle, changed: false, queued: false }
}

/// The next state and the action on an event. A change is noted. A tick
/// clears what was noted; where anything was, it starts a build, or, while
/// one is under way, owes one. The end of a build reports a failure and
/// starts the build that is owed.
pub open spec fn step(st: WatchState, ev: WatchEvent) -> (WatchState, WatchAction) {
    match ev {
        WatchEvent::Changed => (
            WatchState { changed: true, ..st },
            WatchAction { start_build: false, report_failure: false },
        ),
        WatchEvent::Tick => if !st.changed {
            (st, WatchAction { start_build: false, report_failure: false })
        } else if st.phase == WatchPhase::Idle {
            (
                WatchState { phase: WatchPhase::Building, changed: false, queued: false },
                WatchAction { start_build: true, report_failure: false },
            )
        } else {
            (
                WatchState { changed: false, queued: true, ..st },
                WatchAction { start_build: false, report_failure: false },
            )
        },
        WatchEvent::Built(ok) => if st.phase == WatchPhase::Building && st.queued {
            (
                WatchState { phase: WatchPhase::Building, queued: false, ..st },
                WatchAction { start_build: true, report_failure: !ok },
            )
        } else {
            (
                WatchState { phase: WatchPhase::Idle, queued: false, ..st },
                WatchAction {
                    start_build: false,
                    report_failure: st.phase == WatchPhase::Building && !ok,
                },
            )
        },
    }
}

/// The state after the events.
pub open spec fn state_after(st: WatchState, events: Seq<WatchEvent>) -> WatchState
    decreases events.len(),
{
    if events.len() == 0 {
        st
    } else {
        step(state_after(st, events.drop_last()), events.last()).0
    }
}

/// The number of builds that the events start.
pub open spec fn builds_started(st: WatchState, events: Seq<WatchEvent>) -> nat
    decreases events.len(),
{
    if events.len() == 0 {
        0
    } else {
        let before = builds_started(st, events.drop_last());
        if step(state_after(st, events.drop_last()), events.last()).1.start_build {
            before + 1
        } else {
            before
        }
    }
}

/// `m` changes in a row.
pub open spec fn changes(m: nat) -> Seq<WatchEvent> {
    Seq::new(m, |i: int| WatchEvent::Changed)
}

/// Changes alone start no build and are noted, whatever their number.
pub proof fn lemma_changes_are_noted(st: WatchState, m: nat)
    ensures
        builds_started(st, changes(m)) == 0,
        state_after(st, changes(m)) == if m == 0 {
            st
        } else {
            WatchState { changed: true, ..st }
        },
    decreases m,
{
    if m > 0 {
        lemma_changes_are_noted(st, (m - 1) as nat);
        assert(changes(m).drop_last() =~= changes((m - 1) as nat));
    }
}

/// Any number of changes between two ticks starts exactly one build at the
/// tick, where no build is under way; no change starts none.
pub proof fn lemma_burst_starts_one_build(m: nat)
    ensures
        builds_started(idle(), changes(m).push(WatchEvent::Tick)) == if m == 0 {
            0nat
        } else {
            1nat
        },
        m > 0 ==> state_after(idle(), changes(m).push(WatchEvent::Tick)) == (WatchState {
            phase: WatchPhase::Building,
            changed: false,
            queued: false,
        }),
{
    lemma_changes_are_noted(idle(), m);
    assert(changes(m).push(WatchEvent::Tick).drop_last() =~= changes(m));
}

/// Any number of changes between two ticks while a build is under way
/// starts no build at the tick and exactly one when that build is done.
pub proof fn lemma_burst_during_build_starts_one_build(m: nat, ok: bool)
    requires
        m > 0,
    ensures
        ({
            let building = WatchState { phase: WatchPhase::Building, changed: false, queued: false };
            let burst = changes(m).push(WatchEvent::Tick);
            &&& builds_started(building, burst) == 0
            &&& builds_started(building, burst.push(WatchEvent::Built(ok))) == 1
            &&& state_after(building, burst.push(WatchEvent::Built(ok))) == building
        }),
{
    let building = WatchState { phase: WatchPhase::Building, changed: false, queued: false };
    let burst = changes(m).push(WatchEvent::Tick);
    lemma_changes_are_noted(building, m);
    assert(burst.drop_last() =~= changes(m));
    assert(burst.last() == WatchEvent::Tick);
    assert(state_after(building, burst) == (WatchState { queued: true, ..building }));
    assert(builds_started(building, burst) == 0);
    let whole = burst.push(WatchEvent::Built(ok));
    assert(whole.drop_last() =~= burst);
    assert(whole.last() == WatchEvent::Built(ok));
}

impl WatchState {
    /// The state of a watch loop that starts after a finished build.
    pub fn new() -> (st: WatchState)
        ensures
            st == idle(),
    {
        WatchState { phase: WatchPhase::Idle, changed: false, queued: false }
    }

    /// The next state and the action on an event.
    pub fn on_event(self, ev: WatchEvent) -> (r: (WatchState, WatchAction))
        ensures
            r == step(self, ev),
    {
        let nothing = WatchAction { start_build: false, report_failure: false };
        match ev {
            WatchEvent::Changed => (
                WatchState { phase: self.phase, changed: true, queued: self.queued },
                nothing,
            ),
            WatchEvent::Tick => {
                if !self.changed {
                    (self, nothing)
                } else {
                    match self.phase {
                        WatchPhase::Idle => (
                            WatchState { phase: WatchPhase::Building, changed: false, queued: false },
                            WatchAction { start_build: true, report_failure: false },
                        ),
                        WatchPhase::Building => (
                            WatchState { phase: self.phase, changed: false, queued: true },
                            nothing,
                        ),
                    }
                }
            },
            WatchEvent::Built(ok) => {
                match self.phase {
                    WatchPhase::Building => {
                        if self.queued {
                            (
                                WatchState {
                                    phase: WatchPhase::Building,
                                    changed: self.changed,
                                    queued: false,
                                },
                                WatchAction { start_build: true, report_failure: !ok },
                            )
                        } else {
                            (
                                WatchState {
                                    phase: WatchPhase::Idle,
                                    changed: self.changed,
                                    queued: false,
                                },
                                WatchAction { start_build: false, report_failure: !ok },
                            )
                        }
                    },
                    WatchPhase::Idle => (
                        WatchState { phase: WatchPhase::Idle, changed: self.changed, queued: false },
                        nothing,
                    ),
                }
            },
        }
    }
}

} // verus!
