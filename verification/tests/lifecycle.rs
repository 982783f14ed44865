use live_server::lifecycle::{Lifecycle, LifecycleAction, LifecycleEvent, Phase, Stage, Unit};

const EVENTS: [LifecycleEvent; 7] = [
    LifecycleEvent::Bound,
    LifecycleEvent::BindFailed,
    LifecycleEvent::WatchStarted,
    LifecycleEvent::WatchFailed,
    LifecycleEvent::Start,
    LifecycleEvent::Exited(Unit::Watcher),
    LifecycleEvent::Exited(Unit::Server),
];

#[test]
fn setup_binds_then_watches_then_waits() {
    let mut life = Lifecycle::new();
    assert_eq!(life.phase(), Phase::Binding);
    assert_eq!(life.handle(LifecycleEvent::Bound), LifecycleAction::StartWatch);
    assert_eq!(life.phase(), Phase::Watching);
    assert_eq!(life.handle(LifecycleEvent::WatchStarted), LifecycleAction::AwaitStart);
    assert_eq!(life.phase(), Phase::Ready);
    assert_eq!(life.handle(LifecycleEvent::Start), LifecycleAction::Spawn);
    assert_eq!(life.phase(), Phase::Running);
}

#[test]
fn bind_failure_ends_setup_before_the_watcher() {
    let mut life = Lifecycle::new();
    assert_eq!(life.handle(LifecycleEvent::BindFailed), LifecycleAction::Abort(Stage::Bind));
    assert_eq!(life.phase(), Phase::Stopped);
    for event in EVENTS {
        assert_eq!(life.handle(event), LifecycleAction::Reject);
        assert_eq!(life.phase(), Phase::Stopped);
    }
}

#[test]
fn watch_failure_ends_setup_before_the_start() {
    let mut life = Lifecycle::new();
    life.handle(LifecycleEvent::Bound);
    assert_eq!(life.handle(LifecycleEvent::WatchFailed), LifecycleAction::Abort(Stage::Watch));
    assert_eq!(life.phase(), Phase::Stopped);
    assert_eq!(life.handle(LifecycleEvent::Start), LifecycleAction::Reject);
}

#[test]
fn server_cannot_start_before_setup_is_done() {
    let mut life = Lifecycle::new();
    assert_eq!(life.handle(LifecycleEvent::Start), LifecycleAction::Reject);
    assert_eq!(life.handle(LifecycleEvent::WatchStarted), LifecycleAction::Reject);
    assert_eq!(life.phase(), Phase::Binding);
    life.handle(LifecycleEvent::Bound);
    assert_eq!(life.handle(LifecycleEvent::Start), LifecycleAction::Reject);
    assert_eq!(life.handle(LifecycleEvent::Bound), LifecycleAction::Reject);
    assert_eq!(life.phase(), Phase::Watching);
}

#[test]
fn server_starts_only_once() {
    let mut life = Lifecycle::new();
    life.handle(LifecycleEvent::Bound);
    life.handle(LifecycleEvent::WatchStarted);
    assert_eq!(life.handle(LifecycleEvent::Start), LifecycleAction::Spawn);
    assert_eq!(life.handle(LifecycleEvent::Start), LifecycleAction::Reject);
    assert_eq!(life.phase(), Phase::Running);
}

#[test]
fn end_of_either_loop_ends_the_server() {
    for unit in [Unit::Watcher, Unit::Server] {
        let mut life = Lifecycle::new();
        life.handle(LifecycleEvent::Bound);
        life.handle(LifecycleEvent::WatchStarted);
        life.handle(LifecycleEvent::Start);
        assert_eq!(life.handle(LifecycleEvent::Exited(unit)), LifecycleAction::Shutdown(unit));
        assert_eq!(life.phase(), Phase::Stopped);
        assert_eq!(life.handle(LifecycleEvent::Start), LifecycleAction::Reject);
        assert_eq!(life.handle(LifecycleEvent::Exited(unit)), LifecycleAction::Reject);
    }
}

#[test]
fn exit_before_the_start_is_rejected() {
    let mut life = Lifecycle::new();
    assert_eq!(life.handle(LifecycleEvent::Exited(Unit::Server)), LifecycleAction::Reject);
    life.handle(LifecycleEvent::Bound);
    life.handle(LifecycleEvent::WatchStarted);
    assert_eq!(life.handle(LifecycleEvent::Exited(Unit::Watcher)), LifecycleAction::Reject);
    assert_eq!(life.phase(), Phase::Ready);
}

#[test]
fn any_order_of_events_starts_the_loops_at_most_once() {
    let mut seed: u64 = 0x9e37_79b9_7f4a_7c15;
    for _ in 0..200 {
        let mut life = Lifecycle::new();
        let mut spawns = 0;
        for _ in 0..40 {
            seed = seed.wrapping_mul(6364136223846793005).wrapping_add(1442695040888963407);
            let event = EVENTS[(seed >> 33) as usize % EVENTS.len()];
            if life.handle(event) == LifecycleAction::Spawn {
                spawns += 1;
            }
        }
        assert!(spawns <= 1);
    }
}
