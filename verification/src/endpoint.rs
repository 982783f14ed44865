//! The reload endpoint: one long-lived connection per client.
//!
//! A connection goes from `Connecting` to `Open` to `Closed` and never
//! back. While it is open it owns one subscription of the broadcaster, and
//! every signal that the subscription yields is one notification to the
//! client. However the connection ends, its subscription ends with it, and
//! nothing else in the broadcaster is touched.

use crate::broadcast::{Broadcaster, Channel};
use crate::signal::ReloadSignal;
use vstd::prelude::*;

verus! {

/// The state of one client's connection.
#[derive(Clone, Copy, Debug, PartialEq, Eq, Structural)]
pub enum Connection {
    /// The upgrade request has arrived; nothing is subscribed yet.
    Connecting,
    /// The connection is up and owns the subscription `subscription`.
    Open { subscription: u64 },
    /// The connection has ended and owns nothing.
    Closed,
}

/// What the client's side of an open connection did.
#[derive(Clone, Copy, Debug, PartialEq, Eq, Structural)]
pub enum ClientEvent {
    /// The client sent a message. The protocol gives it no meaning.
    Message,
    /// The client sent a close frame, or its stream ended.
    Closed,
    /// Reading from the client failed.
    ReadError,
}

impl Connection {
    /// The connection and the channel after the upgrade has succeeded.
    pub open spec fn opened(self, channel: Channel) -> (Connection, Channel) {
        match self {
            Connection::Connecting => if channel.can_subscribe() {
                (Connection::Open { subscription: channel.issued as u64 }, channel.subscribe())
            } else {
                (Connection::Closed, channel)
            },
            _ => (self, channel),
        }
    }

    /// The connection and the channel after the connection has ended.
    pub open spec fn ended(self, channel: Channel) -> (Connection, Channel) {
        match self {
            Connection::Open { subscription } => (
                Connection::Closed,
                channel.unsubscribe(subscription),
            ),
            _ => (Connection::Closed, channel),
        }
    }

    /// The connection and the channel after the client's side did `event`.
    pub open spec fn after(self, event: ClientEvent, channel: Channel) -> (Connection, Channel) {
        match event {
            ClientEvent::Message => (self, channel),
            ClientEvent::Closed => self.ended(channel),
            ClientEvent::ReadError => self.ended(channel),
        }
    }

    /// Whether a notification is due to the client.
    pub open spec fn notification_due(self, channel: Channel) -> bool {
        self matches Connection::Open { subscription } && channel.has_pending(subscription)
    }

    /// The channel after the connection took the signal for its next
    /// notification.
    pub open spec fn notified(self, channel: Channel) -> Channel {
        match self {
            Connection::Open { subscription } => channel.receive(subscription),
            _ => channel,
        }
    }

    /// A connection for an upgrade request that has just arrived.
    pub fn new() -> (c: Connection)
        ensures
            c == Connection::Connecting,
    {
        Connection::Connecting
    }

    /// Whether the connection is open.
    pub fn is_open(&self) -> (r: bool)
        ensures
            r == (*self is Open),
    {
        match self {
            Connection::Open { .. } => true,
            _ => false,
        }
    }

    /// Whether the connection has ended.
    pub fn is_closed(&self) -> (r: bool)
        ensures
            r == (*self is Closed),
    {
        match self {
            Connection::Closed => true,
            _ => false,
        }
    }

    /// Completes the upgrade: a connecting connection subscribes and is
    /// open. Where the broadcaster can give out no further subscription the
    /// connection is closed at once. A connection that is already open or
    /// closed stays as it is. Returns whether the connection is open now
    /// because of this call.
    pub fn open(&mut self, broadcaster: &mut Broadcaster) -> (opened: bool)
        requires
            old(broadcaster).wf(),
        ensures
            final(broadcaster).wf(),
            (*final(self), final(broadcaster)@) == old(self).opened(old(broadcaster)@),
            opened == (*old(self) is Connecting && old(broadcaster)@.can_subscribe()),
    {
        match *self {
            Connection::Connecting => match broadcaster.subscribe() {
                Some(subscription) => {
                    *self = Connection::Open { subscription };
                    true
                },
                None => {
                    *self = Connection::Closed;
                    false
                },
            },
            _ => false,
        }
    }

    /// Takes the next signal from the connection's subscription. For each
    /// `Some` the caller sends one reload notification to the client; on
    /// `None` there is nothing to send yet, or the connection is not open.
    pub fn next_notification(&self, broadcaster: &mut Broadcaster) -> (signal: Option<
        ReloadSignal,
    >)
        requires
            old(broadcaster).wf(),
        ensures
            final(broadcaster).wf(),
            signal is Some == self.notification_due(old(broadcaster)@),
            final(broadcaster)@ == self.notified(old(broadcaster)@),
    {
        match *self {
            Connection::Open { subscription } => match broadcaster.receive(subscription) {
                Some(_) => Some(ReloadSignal),
                None => None,
            },
            _ => None,
        }
    }

    /// Ends the connection and releases its subscription.
    pub fn close(&mut self, broadcaster: &mut Broadcaster)
        requires
            old(broadcaster).wf(),
        ensures
            final(broadcaster).wf(),
            (*final(self), final(broadcaster)@) == old(self).ended(old(broadcaster)@),
    {
        match *self {
            Connection::Open { subscription } => {
                broadcaster.unsubscribe(subscription);
            },
            _ => {},
        }
        *self = Connection::Closed;
    }

    /// Takes what the client's side did: a message is ignored, a close
    /// frame or a read error ends the connection.
    pub fn on_client(&mut self, event: ClientEvent, broadcaster: &mut Broadcaster)
        requires
            old(broadcaster).wf(),
        ensures
            final(broadcaster).wf(),
            (*final(self), final(broadcaster)@) == old(self).after(event, old(broadcaster)@),
    {
        match event {
            ClientEvent::Message => {},
            ClientEvent::Closed => self.close(broadcaster),
            ClientEvent::ReadError => self.close(broadcaster),
        }
    }

    /// Takes the failure to send a notification: the connection ends, as it
    /// does when the client closes it.
    pub fn on_send_failed(&mut self, broadcaster: &mut Broadcaster)
        requires
            old(broadcaster).wf(),
        ensures
            final(broadcaster).wf(),
            (*final(self), final(broadcaster)@) == old(self).after(
                ClientEvent::Closed,
                old(broadcaster)@,
            ),
    {
        self.close(broadcaster)
    }
}

/// A connection that opens owns a subscription that no other connection
/// has, and it starts with nothing to send.
pub proof fn lemma_open_subscribes_afresh(channel: Channel)
    requires
        channel.inv(),
        channel.can_subscribe(),
    ensures
        Connection::Connecting.opened(channel).0 is Open,
        !channel.queues.contains_key(Connection::Connecting.opened(channel).0->subscription),
        Connection::Connecting.opened(channel).1.queues.contains_key(
            Connection::Connecting.opened(channel).0->subscription,
        ),
        !Connection::Connecting.opened(channel).0.notification_due(
            Connection::Connecting.opened(channel).1,
        ),
{
    let id = channel.issued as u64;
    if channel.queues.contains_key(id) {
        assert(id < channel.issued);
    }
}

/// However a connection ends, it is closed, its subscription is gone, and
/// every other subscription is as it was: what happens to one connection is
/// invisible to the others.
pub proof fn lemma_end_releases_only_own(connection: Connection, channel: Channel, other: u64)
    requires
        connection matches Connection::Open { subscription } ==> subscription != other,
    ensures
        connection.ended(channel).0 is Closed,
        connection matches Connection::Open { subscription } ==> !connection.ended(
            channel,
        ).1.queues.contains_key(subscription),
        connection.ended(channel).1.queues.contains_key(other) == channel.queues.contains_key(
            other,
        ),
        connection.ended(channel).1.queues[other] == channel.queues[other],
        connection.ended(channel).1.published == channel.published,
{
}

/// A closed connection stays closed and leaves the broadcaster alone,
/// whatever happens to it afterwards.
pub proof fn lemma_closed_is_final(channel: Channel, event: ClientEvent)
    ensures
        Connection::Closed.opened(channel) == (Connection::Closed, channel),
        Connection::Closed.after(event, channel) == (Connection::Closed, channel),
        !Connection::Closed.notification_due(channel),
        Connection::Closed.notified(channel) == channel,
{
}

} // verus!
