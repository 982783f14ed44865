use live_server::broadcast::Broadcaster;
use live_server::endpoint::{ClientEvent, Connection};
use live_server::signal::ReloadSignal;

#[test]
fn connection_starts_connecting() {
    let c = Connection::new();
    assert_eq!(c, Connection::Connecting);
    assert!(!c.is_open());
    assert!(!c.is_closed());
}

#[test]
fn upgrade_opens_the_connection_with_a_subscription() {
    let mut b = Broadcaster::new();
    let mut c = Connection::new();
    assert!(c.open(&mut b));
    assert_eq!(c, Connection::Open { subscription: 0 });
    assert!(c.is_open());
    assert!(b.is_subscribed(0));
    assert!(!c.open(&mut b));
    assert_eq!(c, Connection::Open { subscription: 0 });
    assert_eq!(b.subscriber_count(), 1);
}

#[test]
fn each_signal_is_one_notification() {
    let mut b = Broadcaster::new();
    let mut c = Connection::new();
    assert_eq!(c.next_notification(&mut b), None);
    c.open(&mut b);
    assert_eq!(c.next_notification(&mut b), None);
    b.publish(ReloadSignal);
    b.publish(ReloadSignal);
    assert_eq!(c.next_notification(&mut b), Some(ReloadSignal));
    assert_eq!(c.next_notification(&mut b), Some(ReloadSignal));
    assert_eq!(c.next_notification(&mut b), None);
}

#[test]
fn client_messages_are_ignored() {
    let mut b = Broadcaster::new();
    let mut c = Connection::new();
    c.open(&mut b);
    b.publish(ReloadSignal);
    c.on_client(ClientEvent::Message, &mut b);
    assert_eq!(c, Connection::Open { subscription: 0 });
    assert_eq!(b.pending(0), Some(1));
}

#[test]
fn client_close_releases_the_subscription() {
    for event in [ClientEvent::Closed, ClientEvent::ReadError] {
        let mut b = Broadcaster::new();
        let mut other = Connection::new();
        other.open(&mut b);
        let mut c = Connection::new();
        c.open(&mut b);
        b.publish(ReloadSignal);
        c.on_client(event, &mut b);
        assert_eq!(c, Connection::Closed);
        assert!(c.is_closed());
        assert!(!b.is_subscribed(1));
        assert_eq!(b.subscriber_count(), 1);
        assert_eq!(c.next_notification(&mut b), None);
        assert_eq!(other.next_notification(&mut b), Some(ReloadSignal));
    }
}

#[test]
fn send_failure_ends_the_connection_like_a_close() {
    let mut b = Broadcaster::new();
    let mut other = Connection::new();
    other.open(&mut b);
    let mut c = Connection::new();
    c.open(&mut b);
    b.publish(ReloadSignal);
    assert_eq!(c.next_notification(&mut b), Some(ReloadSignal));
    c.on_send_failed(&mut b);
    assert_eq!(c, Connection::Closed);
    assert!(!b.is_subscribed(1));
    assert!(b.is_subscribed(0));
    assert_eq!(b.pending(0), Some(1));
    assert_eq!(b.publish(ReloadSignal), Some(1));
    assert_eq!(other.next_notification(&mut b), Some(ReloadSignal));
    assert_eq!(other.next_notification(&mut b), Some(ReloadSignal));
}

#[test]
fn closed_connection_stays_closed() {
    let mut b = Broadcaster::new();
    let mut c = Connection::new();
    c.close(&mut b);
    assert_eq!(c, Connection::Closed);
    assert!(!c.open(&mut b));
    assert_eq!(c, Connection::Closed);
    c.on_client(ClientEvent::Message, &mut b);
    c.on_client(ClientEvent::Closed, &mut b);
    c.on_send_failed(&mut b);
    assert_eq!(c, Connection::Closed);
    assert_eq!(b.subscriber_count(), 0);
}
