//! The debounced watcher: bursts of filesystem events become single reload
//! signals.
//!
//! The first event after a quiet time opens a window of fixed length. Every
//! event that arrives before the window ends joins the same batch, whatever
//! its kind and whatever path it names. When the window has ended the batch
//! is given out as one signal. The watcher reads no clock and no filesystem:
//! events and clock readings are handed to [`Debouncer::handle`], times in
//! milliseconds on any clock that does not run backwards.

use crate::signal::ReloadSignal;
use vstd::prelude::*;

verus! {

/// What the watcher is doing between two events.
#[derive(Clone, Copy, Debug, PartialEq, Eq, Structural)]
pub enum WatchState {
    /// No change is waiting to be reported.
    Idle,
    /// A batch is open and closes at `deadline`.
    Collecting { deadline: u64 },
    /// The source of events has ended; the watcher cannot be started again.
    Stopped,
}

/// What is handed to the watcher.
#[derive(Clone, Copy, Debug, PartialEq, Eq, Structural)]
pub enum WatchEvent {
    /// Something under the root was created, modified, removed or renamed
    /// at time `at`.
    Changed { at: u64 },
    /// The notification subsystem reported an error that leaves the watch
    /// in place.
    Failed,
    /// The clock reads `now`.
    Elapsed { now: u64 },
    /// The notification subsystem has ended and will report nothing more.
    Closed,
}

/// What the caller is to do after an event.
#[derive(Clone, Copy, Debug, PartialEq, Eq, Structural)]
pub enum WatchAction {
    /// Nothing; go on observing.
    Wait,
    /// Publish the signal: a batch has closed.
    Emit(ReloadSignal),
    /// Log the error and go on observing.
    Report,
    /// End the watch loop: nothing more will come.
    Stop,
}

/// The debounced watcher's state: the length of its window and what it is
/// doing.
#[derive(Clone, Copy, Debug, PartialEq, Eq, Structural)]
pub struct Debouncer {
    pub window: u64,
    pub state: WatchState,
}

/// The end of a window of length `window` that opens at `at`. A window that
/// would end after the last representable time ends there.
pub open spec fn window_end(at: u64, window: u64) -> u64 {
    if at + window > u64::MAX {
        u64::MAX
    } else {
        (at + window) as u64
    }
}

/// How many signals an action gives out.
pub open spec fn signals(action: WatchAction) -> nat {
    if action is Emit {
        1
    } else {
        0
    }
}

/// The events of a burst of changes at the times `times`.
pub open spec fn changes(times: Seq<u64>) -> Seq<WatchEvent> {
    Seq::new(times.len(), |i: int| WatchEvent::Changed { at: times[i] })
}

impl Debouncer {
    /// An idle watcher with the given window.
    pub open spec fn idle(window: u64) -> Debouncer {
        Debouncer { window, state: WatchState::Idle }
    }

    /// The watcher in state `state`.
    pub open spec fn in_state(self, state: WatchState) -> Debouncer {
        Debouncer { window: self.window, state }
    }

    /// The watcher after `event`, and what the caller is to do.
    pub open spec fn step(self, event: WatchEvent) -> (Debouncer, WatchAction) {
        match self.state {
            WatchState::Stopped => (self, WatchAction::Stop),
            WatchState::Idle => match event {
                WatchEvent::Changed { at } => (
                    self.in_state(
                        WatchState::Collecting { deadline: window_end(at, self.window) },
                    ),
                    WatchAction::Wait,
                ),
                WatchEvent::Failed => (self, WatchAction::Report),
                WatchEvent::Elapsed { now } => (self, WatchAction::Wait),
                WatchEvent::Closed => (self.in_state(WatchState::Stopped), WatchAction::Stop),
            },
            WatchState::Collecting { deadline } => match event {
                WatchEvent::Changed { at } => if at < deadline {
                    (self, WatchAction::Wait)
                } else {
                    (
                        self.in_state(
                            WatchState::Collecting { deadline: window_end(at, self.window) },
                        ),
                        WatchAction::Emit(ReloadSignal),
                    )
                },
                WatchEvent::Failed => (self, WatchAction::Report),
                WatchEvent::Elapsed { now } => if now < deadline {
                    (self, WatchAction::Wait)
                } else {
                    (self.in_state(WatchState::Idle), WatchAction::Emit(ReloadSignal))
                },
                WatchEvent::Closed => (self.in_state(WatchState::Stopped), WatchAction::Stop),
            },
        }
    }

    /// The watcher after the events `events`, in their order, and the number
    /// of signals it gave out on the way.
    pub open spec fn run(self, events: Seq<WatchEvent>) -> (Debouncer, nat)
        decreases events.len(),
    {
        if events.len() == 0 {
            (self, 0)
        } else {
            let (before, count) = self.run(events.drop_last());
            let (after, action) = before.step(events.last());
            (after, count + signals(action))
        }
    }

    /// An idle watcher with a window of `window` milliseconds.
    pub fn new(window: u64) -> (d: Debouncer)
        ensures
            d == Debouncer::idle(window),
    {
        Debouncer { window, state: WatchState::Idle }
    }

    /// The time at which the open batch closes: the caller is to hand in a
    /// clock reading no later than shortly after it. `None` while no batch
    /// is open.
    pub fn deadline(&self) -> (r: Option<u64>)
        ensures
            r == (match self.state {
                WatchState::Collecting { deadline } => Some(deadline),
                _ => None,
            }),
    {
        match self.state {
            WatchState::Collecting { deadline } => Some(deadline),
            _ => None,
        }
    }

    /// Whether the watcher has stopped for good.
    pub fn is_stopped(&self) -> (r: bool)
        ensures
            r == (self.state is Stopped),
    {
        match self.state {
            WatchState::Stopped => true,
            _ => false,
        }
    }

    /// Takes one event and says what to do.
    pub fn handle(&mut self, event: WatchEvent) -> (action: WatchAction)
        ensures
            (*final(self), action) == old(self).step(event),
    {
        match self.state {
            WatchState::Stopped => WatchAction::Stop,
            WatchState::Idle => match event {
                WatchEvent::Changed { at } => {
                    self.state = WatchState::Collecting { deadline: close_of(at, self.window) };
                    WatchAction::Wait
                },
                WatchEvent::Failed => WatchAction::Report,
                WatchEvent::Elapsed { now } => WatchAction::Wait,
                WatchEvent::Closed => {
                    self.state = WatchState::Stopped;
                    WatchAction::Stop
                },
            },
            WatchState::Collecting { deadline } => match event {
                WatchEvent::Changed { at } => {
                    if at < deadline {
                        WatchAction::Wait
                    } else {
                        self.state = WatchState::Collecting {
                            deadline: close_of(at, self.window),
                        };
                        WatchAction::Emit(ReloadSignal)
                    }
                },
                WatchEvent::Failed => WatchAction::Report,
                WatchEvent::Elapsed { now } => {
                    if now < deadline {
                        WatchAction::Wait
                    } else {
                        self.state = WatchState::Idle;
                        WatchAction::Emit(ReloadSignal)
                    }
                },
                WatchEvent::Closed => {
                    self.state = WatchState::Stopped;
                    WatchAction::Stop
                },
            },
        }
    }
}

/// The end of a window of length `window` that opens at `at`.
fn close_of(at: u64, window: u64) -> (end: u64)
    ensures
        end == window_end(at, window),
{
    if at > u64::MAX - window {
        u64::MAX
    } else {
        at + window
    }
}

/// While a batch is open, changes that arrive before its deadline give out
/// no signal and leave the deadline where it is, however many they are.
pub proof fn lemma_changes_in_window_coalesce(d: Debouncer, deadline: u64, times: Seq<u64>)
    requires
        d.state == (WatchState::Collecting { deadline }),
        forall|i: int| 0 <= i < times.len() ==> (#[trigger] times[i]) < deadline,
    ensures
        d.run(changes(times)) == (d, 0nat),
    decreases times.len(),
{
    if times.len() > 0 {
        let events = changes(times);
        assert(events.drop_last() =~= changes(times.drop_last()));
        lemma_changes_in_window_coalesce(d, deadline, times.drop_last());
        assert(events.last() == WatchEvent::Changed { at: times.last() });
    }
}

/// Running a sequence of events and then one more is running the longer
/// sequence.
pub proof fn lemma_run_push(d: Debouncer, events: Seq<WatchEvent>, event: WatchEvent)
    ensures
        d.run(events.push(event)) == (
            d.run(events).0.step(event).0,
            d.run(events).1 + signals(d.run(events).0.step(event).1),
        ),
{
    assert(events.push(event).drop_last() =~= events);
}

/// Running the events `first` and then the events `second` is running them
/// all: the signals add up.
pub proof fn lemma_run_concat(d: Debouncer, first: Seq<WatchEvent>, second: Seq<WatchEvent>)
    ensures
        d.run(first + second) == (
            d.run(first).0.run(second).0,
            d.run(first).1 + d.run(first).0.run(second).1,
        ),
    decreases second.len(),
{
    if second.len() == 0 {
        assert(first + second =~= first);
    } else {
        assert((first + second).drop_last() =~= first + second.drop_last());
        lemma_run_concat(d, first, second.drop_last());
    }
}

/// Any burst of changes within one window is reported by exactly one
/// signal. The first change, at `times[0]`, finds the watcher idle and opens
/// the window; the others, however many, arrive before the window ends; the
/// clock is then read at or after its end. The watcher gives out one signal
/// in all and is idle again.
pub proof fn lemma_burst_gives_one_signal(window: u64, times: Seq<u64>, now: u64)
    requires
        times.len() >= 1,
        forall|i: int|
            1 <= i < times.len() ==> (#[trigger] times[i]) < window_end(times[0], window),
        now >= window_end(times[0], window),
    ensures
        Debouncer::idle(window).run(changes(times).push(WatchEvent::Elapsed { now })) == (
            Debouncer::idle(window),
            1nat,
        ),
{
    let idle = Debouncer::idle(window);
    let deadline = window_end(times[0], window);
    let open = idle.in_state(WatchState::Collecting { deadline });
    let first = seq![WatchEvent::Changed { at: times[0] }];
    let rest = times.subrange(1, times.len() as int);
    assert(first.drop_last() =~= Seq::<WatchEvent>::empty());
    assert(idle.run(first.drop_last()) == (idle, 0nat));
    assert(idle.run(first) == (open, 0nat));
    lemma_changes_in_window_coalesce(open, deadline, rest);
    lemma_run_concat(idle, first, changes(rest));
    assert(first + changes(rest) =~= changes(times));
    lemma_run_push(idle, changes(times), WatchEvent::Elapsed { now });
}

/// A change is reported within one window: once a change at `at` has
/// opened a batch, the first clock reading at or after `at + window` gives
/// out the signal, whatever changes and errors came in between without
/// closing the batch.
pub proof fn lemma_signal_due_within_window(window: u64, at: u64, now: u64)
    requires
        now >= at + window,
    ensures
        Debouncer::idle(window).step(WatchEvent::Changed { at }).0.state is Collecting,
        Debouncer::idle(window).step(WatchEvent::Changed { at }).0.state->deadline <= at
            + window,
        Debouncer::idle(window).step(WatchEvent::Changed { at }).0.step(
            WatchEvent::Elapsed { now },
        ) == (Debouncer::idle(window), WatchAction::Emit(ReloadSignal)),
{
}

/// A signal is given out only for a batch whose window has ended: the
/// watcher was collecting, and the event brought a time at or after the
/// deadline. An idle watcher gives out nothing, whatever the clock reads.
pub proof fn lemma_signal_needs_closed_window(d: Debouncer, event: WatchEvent)
    requires
        d.step(event).1 is Emit,
    ensures
        d.state is Collecting,
        match event {
            WatchEvent::Changed { at } => at >= d.state->deadline,
            WatchEvent::Elapsed { now } => now >= d.state->deadline,
            _ => false,
        },
{
}

/// An error that the notification subsystem reports changes nothing: the
/// watcher keeps its state, an open batch included, and asks for a log
/// entry, unless it has stopped already.
pub proof fn lemma_failure_keeps_state(d: Debouncer)
    ensures
        d.step(WatchEvent::Failed).0 == d,
        !(d.state is Stopped) ==> d.step(WatchEvent::Failed).1 == WatchAction::Report,
{
}

/// The watcher cannot be started again: once stopped, it stays stopped and
/// gives out nothing more.
pub proof fn lemma_stopped_is_final(d: Debouncer, events: Seq<WatchEvent>)
    requires
        d.state is Stopped,
    ensures
        d.run(events) == (d, 0nat),
    decreases events.len(),
{
    if events.len() > 0 {
        lemma_stopped_is_final(d, events.drop_last());
    }
}

} // verus!
