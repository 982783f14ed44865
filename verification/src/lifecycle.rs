//! The lifecycle coordinator: in which order the server is set up, when it
//! runs, and when it ends.
//!
//! Setup binds the address first and registers the watcher second; either
//! failure ends the server before any service has started. A server that is
//! ready runs once: the watch loop and the accept loop are started together,
//! and the end of either is the end of both. The coordinator owns no socket
//! and no watcher: it is told what happened and answers what to do.

use vstd::prelude::*;

verus! {

/// Where the server is in its life.
#[derive(Clone, Copy, Debug, PartialEq, Eq, Structural)]
pub enum Phase {
    /// Nothing is acquired; the address is to be bound.
    Binding,
    /// The socket is bound; the watcher is to be registered on the root.
    Watching,
    /// Socket and watcher are held; the server can be started.
    Ready,
    /// The watch loop and the accept loop are running.
    Running,
    /// The server has ended, by a failed setup or by the end of a loop.
    Stopped,
}

/// One of the two units of work that run side by side.
#[derive(Clone, Copy, Debug, PartialEq, Eq, Structural)]
pub enum Unit {
    /// The loop that turns filesystem events into reload signals.
    Watcher,
    /// The loop that accepts and serves HTTP connections.
    Server,
}

/// A step of the setup.
#[derive(Clone, Copy, Debug, PartialEq, Eq, Structural)]
pub enum Stage {
    /// Binding the listening socket.
    Bind,
    /// Registering the watcher on the root directory.
    Watch,
}

/// What the coordinator is told.
#[derive(Clone, Copy, Debug, PartialEq, Eq, Structural)]
pub enum LifecycleEvent {
    /// The address was bound.
    Bound,
    /// The address could not be bound: it is malformed or in use.
    BindFailed,
    /// The watcher was registered on the root.
    WatchStarted,
    /// The root could not be watched: it does not exist or may not be
    /// read.
    WatchFailed,
    /// The caller asks the server to run.
    Start,
    /// A unit of work has ended, for whatever reason.
    Exited(Unit),
}

/// What the coordinator answers.
#[derive(Clone, Copy, Debug, PartialEq, Eq, Structural)]
pub enum LifecycleAction {
    /// Register the watcher on the root.
    StartWatch,
    /// Setup is done; hold the resources until the server is started.
    AwaitStart,
    /// Start the watch loop and the accept loop.
    Spawn,
    /// Setup failed at this stage: release what was acquired and report the
    /// error to the caller.
    Abort(Stage),
    /// This unit has ended: stop the other one and end the process.
    Shutdown(Unit),
    /// The event has no place in this phase; nothing changes.
    Reject,
}

/// The lifecycle coordinator.
#[derive(Clone, Copy, Debug, PartialEq, Eq, Structural)]
pub struct Lifecycle {
    pub phase: Phase,
}

/// How far a phase is along the server's life.
pub open spec fn rank(phase: Phase) -> nat {
    match phase {
        Phase::Binding => 0,
        Phase::Watching => 1,
        Phase::Ready => 2,
        Phase::Running => 3,
        Phase::Stopped => 4,
    }
}

/// How many of `actions` start the two loops.
pub open spec fn spawns(actions: Seq<LifecycleAction>) -> nat
    decreases actions.len(),
{
    if actions.len() == 0 {
        0
    } else {
        spawns(actions.drop_last()) + if actions.last() is Spawn {
            1nat
        } else {
            0nat
        }
    }
}

impl Lifecycle {
    /// The coordinator in phase `phase`.
    pub open spec fn at(phase: Phase) -> Lifecycle {
        Lifecycle { phase }
    }

    /// The coordinator after `event`, and its answer.
    pub open spec fn step(self, event: LifecycleEvent) -> (Lifecycle, LifecycleAction) {
        match (self.phase, event) {
            (Phase::Binding, LifecycleEvent::Bound) => (
                Lifecycle::at(Phase::Watching),
                LifecycleAction::StartWatch,
            ),
            (Phase::Binding, LifecycleEvent::BindFailed) => (
                Lifecycle::at(Phase::Stopped),
                LifecycleAction::Abort(Stage::Bind),
            ),
            (Phase::Watching, LifecycleEvent::WatchStarted) => (
                Lifecycle::at(Phase::Ready),
                LifecycleAction::AwaitStart,
            ),
            (Phase::Watching, LifecycleEvent::WatchFailed) => (
                Lifecycle::at(Phase::Stopped),
                LifecycleAction::Abort(Stage::Watch),
            ),
            (Phase::Ready, LifecycleEvent::Start) => (
                Lifecycle::at(Phase::Running),
                LifecycleAction::Spawn,
            ),
            (Phase::Running, LifecycleEvent::Exited(unit)) => (
                Lifecycle::at(Phase::Stopped),
                LifecycleAction::Shutdown(unit),
            ),
            _ => (self, LifecycleAction::Reject),
        }
    }

    /// The coordinator after the events `events`, in their order, and its
    /// answers.
    pub open spec fn run(self, events: Seq<LifecycleEvent>) -> (Lifecycle, Seq<LifecycleAction>)
        decreases events.len(),
    {
        if events.len() == 0 {
            (self, Seq::empty())
        } else {
            let (before, actions) = self.run(events.drop_last());
            let (after, action) = before.step(events.last());
            (after, actions.push(action))
        }
    }

    /// A coordinator at the start of the setup: the address is to be bound.
    pub fn new() -> (life: Lifecycle)
        ensures
            life == Lifecycle::at(Phase::Binding),
    {
        Lifecycle { phase: Phase::Binding }
    }

    /// The phase that the server is in.
    pub fn phase(&self) -> (phase: Phase)
        ensures
            phase == self.phase,
    {
        self.phase
    }

    /// Takes one event and answers what to do.
    pub fn handle(&mut self, event: LifecycleEvent) -> (action: LifecycleAction)
        ensures
            (*final(self), action) == old(self).step(event),
    {
        match self.phase {
            Phase::Binding => match event {
                LifecycleEvent::Bound => {
                    self.phase = Phase::Watching;
                    LifecycleAction::StartWatch
                },
                LifecycleEvent::BindFailed => {
                    self.phase = Phase::Stopped;
                    LifecycleAction::Abort(Stage::Bind)
                },
                _ => LifecycleAction::Reject,
            },
            Phase::Watching => match event {
                LifecycleEvent::WatchStarted => {
                    self.phase = Phase::Ready;
                    LifecycleAction::AwaitStart
                },
                LifecycleEvent::WatchFailed => {
                    self.phase = Phase::Stopped;
                    LifecycleAction::Abort(Stage::Watch)
                },
                _ => LifecycleAction::Reject,
            },
            Phase::Ready => match event {
                LifecycleEvent::Start => {
                    self.phase = Phase::Running;
                    LifecycleAction::Spawn
                },
                _ => LifecycleAction::Reject,
            },
            Phase::Running => match event {
                LifecycleEvent::Exited(unit) => {
                    self.phase = Phase::Stopped;
                    LifecycleAction::Shutdown(unit)
                },
                _ => LifecycleAction::Reject,
            },
            Phase::Stopped => LifecycleAction::Reject,
        }
    }
}

/// The server is never half started. The loops are started only from a
/// server that is ready, the server is ready only once the watcher was
/// registered on a bound socket, and the watcher is registered only once the
/// address was bound.
pub proof fn lemma_setup_in_order(life: Lifecycle, event: LifecycleEvent)
    ensures
        life.step(event).1 is Spawn ==> life.phase is Ready && event is Start,
        life.step(event).1 is StartWatch ==> life.phase is Binding && event is Bound,
        life.step(event).0.phase is Running && !(life.phase is Running) ==> life.phase is Ready,
        life.step(event).0.phase is Ready && !(life.phase is Ready) ==> life.phase is Watching
            && event is WatchStarted,
        life.step(event).0.phase is Watching && !(life.phase is Watching) ==> life.phase
            is Binding && event is Bound,
{
}

/// A failed setup ends the server on the spot: a bind failure before the
/// watcher is asked for, a watch failure before the loops are started.
pub proof fn lemma_setup_failure_is_fatal()
    ensures
        Lifecycle::at(Phase::Binding).step(LifecycleEvent::BindFailed) == (
            Lifecycle::at(Phase::Stopped),
            LifecycleAction::Abort(Stage::Bind),
        ),
        Lifecycle::at(Phase::Watching).step(LifecycleEvent::WatchFailed) == (
            Lifecycle::at(Phase::Stopped),
            LifecycleAction::Abort(Stage::Watch),
        ),
{
}

/// The end of either loop ends the running server, whichever loop it was.
pub proof fn lemma_either_exit_is_fatal(unit: Unit)
    ensures
        Lifecycle::at(Phase::Running).step(LifecycleEvent::Exited(unit)) == (
            Lifecycle::at(Phase::Stopped),
            LifecycleAction::Shutdown(unit),
        ),
{
}

/// No event takes the server back to an earlier phase.
pub proof fn lemma_phase_never_goes_back(life: Lifecycle, events: Seq<LifecycleEvent>)
    ensures
        rank(life.run(events).0.phase) >= rank(life.phase),
        life.run(events).1.len() == events.len(),
    decreases events.len(),
{
    if events.len() > 0 {
        lemma_phase_never_goes_back(life, events.drop_last());
    }
}

/// A stopped server does nothing more: it stays stopped, and every later
/// event is rejected.
pub proof fn lemma_stopped_is_final(events: Seq<LifecycleEvent>)
    ensures
        Lifecycle::at(Phase::Stopped).run(events).0 == Lifecycle::at(Phase::Stopped),
        Lifecycle::at(Phase::Stopped).run(events).1.len() == events.len(),
        forall|i: int|
            0 <= i < events.len() ==> (#[trigger] Lifecycle::at(Phase::Stopped).run(events).1[i])
                == LifecycleAction::Reject,
    decreases events.len(),
{
    if events.len() > 0 {
        lemma_stopped_is_final(events.drop_last());
    }
}

/// The server runs at most once: whatever it is told, and in whatever
/// order, it starts its loops no more than one time, and not at all once it
/// is running or stopped.
pub proof fn lemma_starts_at_most_once(life: Lifecycle, events: Seq<LifecycleEvent>)
    ensures
        spawns(life.run(events).1) <= 1,
        rank(life.phase) >= 3 ==> spawns(life.run(events).1) == 0,
        rank(life.run(events).0.phase) <= 2 ==> spawns(life.run(events).1) == 0,
    decreases events.len(),
{
    if events.len() > 0 {
        let (before, actions) = life.run(events.drop_last());
        lemma_starts_at_most_once(life, events.drop_last());
        lemma_phase_never_goes_back(life, events.drop_last());
        let (after, action) = before.step(events.last());
        assert(actions.push(action).drop_last() =~= actions);
    }
}

} // verus!
