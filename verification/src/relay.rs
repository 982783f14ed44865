//! The watch loop's one turn: from an event at the watcher to a signal at
//! every client.

use crate::broadcast::{Broadcaster, Channel};
use crate::debounce::{changes, window_end, Debouncer, WatchAction, WatchEvent, WatchState};
use vstd::prelude::*;

verus! {

/// The channel after the watcher answered `action`: a signal that the
/// watcher gives out is published, anything else leaves the channel alone.
pub open spec fn forwarded(channel: Channel, action: WatchAction) -> Channel {
    if action is Emit {
        channel.publish()
    } else {
        channel
    }
}

/// The watcher and the channel after the events `events`, in their order,
/// each taken by the watcher and its signal, if any, published.
pub open spec fn relayed(debouncer: Debouncer, channel: Channel, events: Seq<WatchEvent>) -> (
    Debouncer,
    Channel,
)
    decreases events.len(),
{
    if events.len() == 0 {
        (debouncer, channel)
    } else {
        let (d, c) = relayed(debouncer, channel, events.drop_last());
        (d.step(events.last()).0, forwarded(c, d.step(events.last()).1))
    }
}

/// Hands one event to the watcher and publishes the signal that it gives
/// out, if it gives one out. Returns the watcher's answer: on `Report` the
/// caller logs the error, on `Stop` it ends the watch loop.
pub fn relay(debouncer: &mut Debouncer, broadcaster: &mut Broadcaster, event: WatchEvent) -> (action:
    WatchAction)
    requires
        old(broadcaster).wf(),
    ensures
        final(broadcaster).wf(),
        (*final(debouncer), action) == old(debouncer).step(event),
        final(broadcaster)@ == forwarded(old(broadcaster)@, action),
{
    let action = debouncer.handle(event);
    match action {
        WatchAction::Emit(signal) => {
            broadcaster.publish(signal);
        },
        _ => {},
    }
    action
}

/// Changes that arrive while a batch is open and before its deadline reach
/// no client.
proof fn lemma_relay_coalesces(d: Debouncer, c: Channel, deadline: u64, times: Seq<u64>)
    requires
        d.state == (WatchState::Collecting { deadline }),
        forall|i: int| 0 <= i < times.len() ==> (#[trigger] times[i]) < deadline,
    ensures
        relayed(d, c, changes(times)) == (d, c),
    decreases times.len(),
{
    if times.len() > 0 {
        let events = changes(times);
        assert(events.drop_last() =~= changes(times.drop_last()));
        lemma_relay_coalesces(d, c, deadline, times.drop_last());
        assert(events.last() == WatchEvent::Changed { at: times.last() });
    }
}

/// Relaying the events `first` and then the events `second` is relaying
/// them all.
proof fn lemma_relay_concat(
    d: Debouncer,
    c: Channel,
    first: Seq<WatchEvent>,
    second: Seq<WatchEvent>,
)
    ensures
        relayed(d, c, first + second) == relayed(
            relayed(d, c, first).0,
            relayed(d, c, first).1,
            second,
        ),
    decreases second.len(),
{
    if second.len() == 0 {
        assert(first + second =~= first);
    } else {
        assert((first + second).drop_last() =~= first + second.drop_last());
        lemma_relay_concat(d, c, first, second.drop_last());
    }
}

/// Any burst of changes within one window reaches the clients as exactly
/// one signal, however many changes there were. The first change, at
/// `times[0]`, finds the watcher idle; the others arrive before the window
/// ends; the clock is then read at or after its end. The channel is then
/// what one publish makes of it, and the watcher is idle again.
pub proof fn lemma_burst_is_one_publish(window: u64, channel: Channel, times: Seq<u64>, now: u64)
    requires
        times.len() >= 1,
        forall|i: int|
            1 <= i < times.len() ==> (#[trigger] times[i]) < window_end(times[0], window),
        now >= window_end(times[0], window),
    ensures
        relayed(
            Debouncer::idle(window),
            channel,
            changes(times).push(WatchEvent::Elapsed { now }),
        ) == (Debouncer::idle(window), channel.publish()),
{
    let idle = Debouncer::idle(window);
    let deadline = window_end(times[0], window);
    let open = idle.in_state(WatchState::Collecting { deadline });
    let first = seq![WatchEvent::Changed { at: times[0] }];
    let rest = times.subrange(1, times.len() as int);
    assert(first.drop_last() =~= Seq::<WatchEvent>::empty());
    assert(relayed(idle, channel, first.drop_last()) == (idle, channel));
    assert(relayed(idle, channel, first) == (open, channel));
    lemma_relay_coalesces(open, channel, deadline, rest);
    lemma_relay_concat(idle, channel, first, changes(rest));
    assert(first + changes(rest) =~= changes(times));
    let all = changes(times).push(WatchEvent::Elapsed { now });
    assert(all.drop_last() =~= changes(times));
}

/// After a burst of changes within one window, every client that was
/// subscribed has the one new signal to receive, as the last in its queue,
/// and a client whose queue had room has exactly one signal more than
/// before.
pub proof fn lemma_burst_notifies_each_client_once(
    window: u64,
    channel: Channel,
    times: Seq<u64>,
    now: u64,
    id: u64,
)
    requires
        channel.inv(),
        channel.can_publish(),
        channel.queues.contains_key(id),
        times.len() >= 1,
        forall|i: int|
            1 <= i < times.len() ==> (#[trigger] times[i]) < window_end(times[0], window),
        now >= window_end(times[0], window),
    ensures
        ({
            let after = relayed(
                Debouncer::idle(window),
                channel,
                changes(times).push(WatchEvent::Elapsed { now }),
            ).1;
            &&& after.published == channel.published + 1
            &&& after.queues.contains_key(id)
            &&& after.queues[id].len() >= 1
            &&& after.queues[id].last() == channel.published
            &&& channel.queues[id].len() < channel.capacity ==> after.queues[id]
                == channel.queues[id].push(channel.published)
        }),
{
    lemma_burst_is_one_publish(window, channel, times, now);
}

} // verus!
