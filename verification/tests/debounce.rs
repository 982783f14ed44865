use live_server::broadcast::Broadcaster;
use live_server::debounce::{Debouncer, WatchAction, WatchEvent, WatchState};
use live_server::relay::relay;
use live_server::signal::ReloadSignal;

#[test]
fn new_watcher_is_idle() {
    let d = Debouncer::new(200);
    assert_eq!(d.window, 200);
    assert_eq!(d.state, WatchState::Idle);
    assert_eq!(d.deadline(), None);
    assert!(!d.is_stopped());
}

#[test]
fn first_change_opens_the_window() {
    let mut d = Debouncer::new(200);
    assert_eq!(d.handle(WatchEvent::Changed { at: 1000 }), WatchAction::Wait);
    assert_eq!(d.state, WatchState::Collecting { deadline: 1200 });
    assert_eq!(d.deadline(), Some(1200));
}

#[test]
fn window_does_not_move_with_later_changes() {
    let mut d = Debouncer::new(200);
    d.handle(WatchEvent::Changed { at: 1000 });
    assert_eq!(d.handle(WatchEvent::Changed { at: 1199 }), WatchAction::Wait);
    assert_eq!(d.deadline(), Some(1200));
    assert_eq!(d.handle(WatchEvent::Elapsed { now: 1199 }), WatchAction::Wait);
    assert_eq!(d.handle(WatchEvent::Elapsed { now: 1200 }), WatchAction::Emit(ReloadSignal));
    assert_eq!(d.state, WatchState::Idle);
    assert_eq!(d.handle(WatchEvent::Elapsed { now: 5000 }), WatchAction::Wait);
}

fn signals_for_burst(writes: u64) -> u64 {
    let mut d = Debouncer::new(300);
    let mut signals = 0;
    for i in 0..writes {
        if d.handle(WatchEvent::Changed { at: 10_000 + i * 2 }) == WatchAction::Emit(ReloadSignal) {
            signals += 1;
        }
    }
    if d.handle(WatchEvent::Elapsed { now: 10_300 }) == WatchAction::Emit(ReloadSignal) {
        signals += 1;
    }
    assert_eq!(d.state, WatchState::Idle);
    signals
}

#[test]
fn burst_in_one_window_gives_one_signal() {
    assert_eq!(signals_for_burst(1), 1);
    assert_eq!(signals_for_burst(5), 1);
    assert_eq!(signals_for_burst(100), 1);
}

#[test]
fn subscriber_sees_one_signal_per_burst() {
    for writes in [1u64, 5, 100] {
        let mut d = Debouncer::new(300);
        let mut b = Broadcaster::new();
        let id = b.subscribe().unwrap();
        for i in 0..writes {
            assert_eq!(relay(&mut d, &mut b, WatchEvent::Changed { at: 50 + i }), WatchAction::Wait);
            assert_eq!(b.pending(id), Some(0));
        }
        assert_eq!(
            relay(&mut d, &mut b, WatchEvent::Elapsed { now: 350 }),
            WatchAction::Emit(ReloadSignal)
        );
        assert_eq!(b.pending(id), Some(1));
        assert_eq!(b.published(), 1);
        assert_eq!(b.receive(id), Some(0));
        assert_eq!(b.receive(id), None);
    }
}

#[test]
fn change_after_the_deadline_closes_the_batch_and_opens_the_next() {
    let mut d = Debouncer::new(100);
    d.handle(WatchEvent::Changed { at: 0 });
    assert_eq!(d.handle(WatchEvent::Changed { at: 100 }), WatchAction::Emit(ReloadSignal));
    assert_eq!(d.state, WatchState::Collecting { deadline: 200 });
    assert_eq!(d.handle(WatchEvent::Changed { at: 150 }), WatchAction::Wait);
    assert_eq!(d.handle(WatchEvent::Elapsed { now: 250 }), WatchAction::Emit(ReloadSignal));
    assert_eq!(d.state, WatchState::Idle);
}

#[test]
fn two_bursts_in_two_windows_give_two_signals() {
    let mut d = Debouncer::new(100);
    let mut b = Broadcaster::new();
    let id = b.subscribe().unwrap();
    relay(&mut d, &mut b, WatchEvent::Changed { at: 0 });
    relay(&mut d, &mut b, WatchEvent::Changed { at: 40 });
    relay(&mut d, &mut b, WatchEvent::Elapsed { now: 100 });
    relay(&mut d, &mut b, WatchEvent::Changed { at: 500 });
    relay(&mut d, &mut b, WatchEvent::Elapsed { now: 599 });
    assert_eq!(b.pending(id), Some(1));
    relay(&mut d, &mut b, WatchEvent::Elapsed { now: 600 });
    assert_eq!(b.pending(id), Some(2));
}

#[test]
fn zero_window_reports_at_the_next_clock_reading() {
    let mut d = Debouncer::new(0);
    assert_eq!(d.handle(WatchEvent::Changed { at: 7 }), WatchAction::Wait);
    assert_eq!(d.deadline(), Some(7));
    assert_eq!(d.handle(WatchEvent::Elapsed { now: 7 }), WatchAction::Emit(ReloadSignal));
}

#[test]
fn window_ends_at_the_last_representable_time_at_the_latest() {
    let mut d = Debouncer::new(1000);
    d.handle(WatchEvent::Changed { at: u64::MAX - 10 });
    assert_eq!(d.deadline(), Some(u64::MAX));
    assert_eq!(d.handle(WatchEvent::Elapsed { now: u64::MAX - 1 }), WatchAction::Wait);
    assert_eq!(d.handle(WatchEvent::Elapsed { now: u64::MAX }), WatchAction::Emit(ReloadSignal));
}

#[test]
fn transient_error_is_reported_and_changes_nothing() {
    let mut d = Debouncer::new(100);
    assert_eq!(d.handle(WatchEvent::Failed), WatchAction::Report);
    assert_eq!(d.state, WatchState::Idle);
    d.handle(WatchEvent::Changed { at: 10 });
    assert_eq!(d.handle(WatchEvent::Failed), WatchAction::Report);
    assert_eq!(d.state, WatchState::Collecting { deadline: 110 });
    assert_eq!(d.handle(WatchEvent::Elapsed { now: 110 }), WatchAction::Emit(ReloadSignal));
}

#[test]
fn closed_source_stops_the_watcher_for_good() {
    let mut d = Debouncer::new(100);
    d.handle(WatchEvent::Changed { at: 10 });
    assert_eq!(d.handle(WatchEvent::Closed), WatchAction::Stop);
    assert!(d.is_stopped());
    assert_eq!(d.deadline(), None);
    assert_eq!(d.handle(WatchEvent::Changed { at: 20 }), WatchAction::Stop);
    assert_eq!(d.handle(WatchEvent::Elapsed { now: 500 }), WatchAction::Stop);
    assert_eq!(d.handle(WatchEvent::Failed), WatchAction::Stop);
    assert_eq!(d.handle(WatchEvent::Closed), WatchAction::Stop);
    assert_eq!(d.state, WatchState::Stopped);
}

#[test]
fn relay_publishes_nothing_on_errors_and_stop() {
    let mut d = Debouncer::new(100);
    let mut b = Broadcaster::new();
    let id = b.subscribe().unwrap();
    assert_eq!(relay(&mut d, &mut b, WatchEvent::Failed), WatchAction::Report);
    assert_eq!(relay(&mut d, &mut b, WatchEvent::Changed { at: 1 }), WatchAction::Wait);
    assert_eq!(relay(&mut d, &mut b, WatchEvent::Closed), WatchAction::Stop);
    assert_eq!(relay(&mut d, &mut b, WatchEvent::Elapsed { now: 1000 }), WatchAction::Stop);
    assert_eq!(b.published(), 0);
    assert_eq!(b.pending(id), Some(0));
}
