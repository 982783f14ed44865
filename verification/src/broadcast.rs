//! Fan-out of reload signals to the connected clients.
//!
//! A [`Broadcaster`] is a registry of subscriptions. In its model, the
//! [`Channel`], every subscription owns a bounded queue of the signals that
//! were published since it was made and not yet received; a full queue gives
//! up its oldest signal for the newest. The registry itself keeps one cursor
//! per subscription, so that publishing touches no subscription at all and a
//! slow client can hold up neither the producer nor any other client.

use crate::signal::ReloadSignal;
use vstd::prelude::*;

verus! {

/// The queue size of [`Broadcaster::new`].
pub const DEFAULT_CAPACITY: usize = 16;

/// A bounded queue after one more signal: a full queue drops its oldest.
pub open spec fn enqueue(queue: Seq<nat>, capacity: nat, signal: nat) -> Seq<nat> {
    if queue.len() >= capacity {
        queue.drop_first().push(signal)
    } else {
        queue.push(signal)
    }
}

/// The model of a broadcaster. Signals are numbered from zero in the order
/// in which they are published; subscriptions are numbered from zero in the
/// order in which they are made.
pub struct Channel {
    /// How many signals a subscription can hold.
    pub capacity: nat,
    /// How many signals were published so far.
    pub published: nat,
    /// How many subscriptions were made so far.
    pub issued: nat,
    /// For each live subscription, the signals it has still to receive,
    /// oldest first.
    pub queues: Map<u64, Seq<nat>>,
}

impl Channel {
    /// A channel on which nothing has happened yet.
    pub open spec fn empty(capacity: nat) -> Channel {
        Channel { capacity, published: 0, issued: 0, queues: Map::empty() }
    }

    /// Whether another subscription can be numbered.
    pub open spec fn can_subscribe(self) -> bool {
        self.issued < u64::MAX
    }

    /// Whether another signal can be numbered.
    pub open spec fn can_publish(self) -> bool {
        self.published < u64::MAX
    }

    /// Whether subscription `id` is live and has a signal to receive.
    pub open spec fn has_pending(self, id: u64) -> bool {
        self.queues.contains_key(id) && self.queues[id].len() > 0
    }

    /// The channel with one more subscription, which starts with nothing to
    /// receive.
    pub open spec fn subscribe(self) -> Channel {
        if self.can_subscribe() {
            Channel {
                issued: self.issued + 1,
                queues: self.queues.insert(self.issued as u64, Seq::empty()),
                ..self
            }
        } else {
            self
        }
    }

    /// The channel without subscription `id`.
    pub open spec fn unsubscribe(self, id: u64) -> Channel {
        Channel { queues: self.queues.remove(id), ..self }
    }

    /// The channel after one more signal went to every live subscription.
    pub open spec fn publish(self) -> Channel {
        if self.can_publish() {
            Channel {
                published: self.published + 1,
                queues: Map::new(
                    |id: u64| self.queues.contains_key(id),
                    |id: u64| enqueue(self.queues[id], self.capacity, self.published),
                ),
                ..self
            }
        } else {
            self
        }
    }

    /// The channel after subscription `id` took its oldest signal.
    pub open spec fn receive(self, id: u64) -> Channel {
        if self.has_pending(id) {
            Channel { queues: self.queues.insert(id, self.queues[id].drop_first()), ..self }
        } else {
            self
        }
    }

    /// What holds of every channel that a broadcaster can reach: the
    /// capacity is positive, each live subscription was made by this
    /// channel, and each queue is within the capacity, in publish order, and
    /// holds published signals only.
    pub open spec fn inv(self) -> bool {
        &&& self.capacity >= 1
        &&& self.published <= u64::MAX
        &&& self.issued <= u64::MAX
        &&& forall|id: u64| #[trigger] self.queues.contains_key(id) ==> id < self.issued
        &&& forall|id: u64| #[trigger]
            self.queues.contains_key(id) ==> self.queues[id].len() <= self.capacity
        &&& forall|id: u64, k: int|
            self.queues.contains_key(id) && 0 <= k < self.queues[id].len() ==> (
            #[trigger] self.queues[id][k]) < self.published
        &&& forall|id: u64, j: int, k: int|
            self.queues.contains_key(id) && 0 <= j < k < self.queues[id].len() ==> (
            #[trigger] self.queues[id][j]) < (#[trigger] self.queues[id][k])
    }
}

/// One operation on a channel.
pub enum Op {
    /// A client connects.
    Subscribe,
    /// The client with this subscription disconnects.
    Unsubscribe(u64),
    /// The watcher reports a change.
    Publish,
    /// The client with this subscription takes its oldest signal.
    Receive(u64),
}

impl Channel {
    /// The channel after `op`.
    pub open spec fn step(self, op: Op) -> Channel {
        match op {
            Op::Subscribe => self.subscribe(),
            Op::Unsubscribe(id) => self.unsubscribe(id),
            Op::Publish => self.publish(),
            Op::Receive(id) => self.receive(id),
        }
    }

    /// The channel after the operations `ops`, in their order.
    pub open spec fn run(self, ops: Seq<Op>) -> Channel
        decreases ops.len(),
    {
        if ops.len() == 0 {
            self
        } else {
            self.run(ops.drop_last()).step(ops.last())
        }
    }

    /// Whether subscription `id`, if it is live, has only signals numbered
    /// `bound` or later to receive.
    pub open spec fn queued_from(self, id: u64, bound: nat) -> bool {
        self.queues.contains_key(id) ==> forall|k: int|
            0 <= k < self.queues[id].len() ==> (#[trigger] self.queues[id][k]) >= bound
    }
}

/// Every operation keeps the channel invariant.
pub proof fn lemma_step_keeps_inv(c: Channel, op: Op)
    requires
        c.inv(),
    ensures
        c.step(op).inv(),
{
    let d = c.step(op);
    match op {
        Op::Subscribe => {},
        Op::Unsubscribe(id) => {},
        Op::Publish => {
            if c.can_publish() {
                assert forall|id: u64, j: int, k: int|
                    d.queues.contains_key(id) && 0 <= j < k < d.queues[id].len() implies (
                #[trigger] d.queues[id][j]) < (#[trigger] d.queues[id][k]) by {
                    let q = c.queues[id];
                    if q.len() >= c.capacity {
                        if k < q.len() - 1 {
                            assert(q[j + 1] < q[k + 1]);
                        } else {
                            assert(q[j + 1] < c.published);
                        }
                    } else {
                        if k < q.len() {
                            assert(q[j] < q[k]);
                        } else {
                            assert(q[j] < c.published);
                        }
                    }
                }
                assert forall|id: u64, k: int|
                    d.queues.contains_key(id) && 0 <= k < d.queues[id].len() implies (
                #[trigger] d.queues[id][k]) < d.published by {
                    let q = c.queues[id];
                    if q.len() >= c.capacity {
                        if k < q.len() - 1 {
                            assert(q[k + 1] < c.published);
                        }
                    } else {
                        if k < q.len() {
                            assert(q[k] < c.published);
                        }
                    }
                }
            }
        },
        Op::Receive(id) => {
            if c.has_pending(id) {
                assert forall|other: u64, j: int, k: int|
                    d.queues.contains_key(other) && 0 <= j < k < d.queues[other].len() implies (
                #[trigger] d.queues[other][j]) < (#[trigger] d.queues[other][k]) by {
                    if other == id {
                        assert(c.queues[id][j + 1] < c.queues[id][k + 1]);
                    } else {
                        assert(c.queues[other][j] < c.queues[other][k]);
                    }
                }
                assert forall|other: u64, k: int|
                    d.queues.contains_key(other) && 0 <= k < d.queues[other].len() implies (
                #[trigger] d.queues[other][k]) < d.published by {
                    if other == id {
                        assert(c.queues[id][k + 1] < c.published);
                    } else {
                        assert(c.queues[other][k] < c.published);
                    }
                }
            }
        },
    }
}

/// Whatever operations follow, the channel invariant holds, no signal or
/// subscription number is taken back, and a subscription that was made
/// before stays clear of every signal older than `bound`, if it was clear of
/// them at the start.
pub proof fn lemma_run_keeps_bound(c: Channel, ops: Seq<Op>, id: u64, bound: nat)
    requires
        c.inv(),
        id < c.issued,
        bound <= c.published,
        c.queued_from(id, bound),
    ensures
        c.run(ops).inv(),
        c.run(ops).published >= c.published,
        c.run(ops).issued >= c.issued,
        c.run(ops).queued_from(id, bound),
    decreases ops.len(),
{
    if ops.len() > 0 {
        let b = c.run(ops.drop_last());
        lemma_run_keeps_bound(c, ops.drop_last(), id, bound);
        lemma_step_keeps_inv(b, ops.last());
        let d = b.step(ops.last());
        assert(d.queued_from(id, bound)) by {
            if d.queues.contains_key(id) {
                assert forall|k: int| 0 <= k < d.queues[id].len() implies (
                #[trigger] d.queues[id][k]) >= bound by {
                    let q = b.queues[id];
                    match ops.last() {
                        Op::Subscribe => {
                            assert(d.queues[id] == q);
                            assert(q[k] >= bound);
                        },
                        Op::Unsubscribe(other) => {
                            assert(q[k] >= bound);
                        },
                        Op::Publish => {
                            if q.len() >= b.capacity {
                                if k < q.len() - 1 {
                                    assert(q[k + 1] >= bound);
                                }
                            } else {
                                if k < q.len() {
                                    assert(q[k] >= bound);
                                }
                            }
                        },
                        Op::Receive(other) => {
                            if other == id && b.has_pending(id) {
                                assert(q[k + 1] >= bound);
                            } else {
                                assert(q[k] >= bound);
                            }
                        },
                    }
                }
            }
        }
    }
}

/// One published signal reaches every live subscription, however full its
/// queue and whatever the others did with theirs: after the call each of
/// them has the new signal to receive, as the last in its queue. None of
/// them held that signal before.
pub proof fn lemma_publish_reaches_all(c: Channel, id: u64)
    requires
        c.inv(),
        c.can_publish(),
        c.queues.contains_key(id),
    ensures
        c.publish().queues.contains_key(id),
        c.publish().queues[id].len() >= 1,
        c.publish().queues[id].last() == c.published,
        forall|k: int| 0 <= k < c.queues[id].len() ==> (#[trigger] c.queues[id][k]) != c.published,
{
}

/// A subscription receives nothing that was published before it was made:
/// it starts with an empty queue, and whatever operations follow, every
/// signal it has to receive is numbered from the count of signals at its
/// making.
pub proof fn lemma_no_replay(c: Channel, ops: Seq<Op>)
    requires
        c.inv(),
        c.can_subscribe(),
    ensures
        c.subscribe().queues.contains_key(c.issued as u64),
        c.subscribe().queues[c.issued as u64].len() == 0,
        c.subscribe().run(ops).queued_from(c.issued as u64, c.published),
{
    lemma_step_keeps_inv(c, Op::Subscribe);
    lemma_run_keeps_bound(c.subscribe(), ops, c.issued as u64, c.published);
}

/// A subscription receives its signals in the order in which they were
/// published: whatever operations follow a receive, every signal that the
/// subscription has to receive afterwards is newer than the one it took.
pub proof fn lemma_delivery_in_order(c: Channel, id: u64, ops: Seq<Op>)
    requires
        c.inv(),
        c.has_pending(id),
    ensures
        c.receive(id).run(ops).queued_from(id, c.queues[id].first() + 1),
{
    let d = c.receive(id);
    lemma_step_keeps_inv(c, Op::Receive(id));
    assert(d.queued_from(id, c.queues[id].first() + 1)) by {
        assert forall|k: int| 0 <= k < d.queues[id].len() implies (#[trigger] d.queues[id][k])
            >= c.queues[id].first() + 1 by {
            assert(c.queues[id][0] < c.queues[id][k + 1]);
        }
    }
    assert(c.queues[id][0] < c.published);
    lemma_run_keeps_bound(d, ops, id, c.queues[id].first() + 1);
}

/// What one client does with its subscription changes nothing for another:
/// receiving and unsubscribing leave every other queue as it was.
pub proof fn lemma_clients_independent(c: Channel, id: u64, other: u64)
    requires
        id != other,
    ensures
        c.receive(id).queues.contains_key(other) == c.queues.contains_key(other),
        c.receive(id).queues[other] == c.queues[other],
        c.unsubscribe(id).queues.contains_key(other) == c.queues.contains_key(other),
        c.unsubscribe(id).queues[other] == c.queues[other],
{
}

/// One entry of the registry: a subscription and the number of the next
/// signal that it has not received.
struct Subscriber {
    id: u64,
    cursor: u64,
}

/// The single distribution point between the watcher and the clients.
pub struct Broadcaster {
    capacity: usize,
    published: u64,
    issued: u64,
    subscribers: Vec<Subscriber>,
}

/// Whether the registry `subs` holds subscription `id`.
spec fn holds(subs: Seq<Subscriber>, id: u64) -> bool {
    exists|i: int| 0 <= i < subs.len() && (#[trigger] subs[i]).id == id
}

/// The index of subscription `id` in the registry `subs`.
spec fn position(subs: Seq<Subscriber>, id: u64) -> int {
    choose|i: int| 0 <= i < subs.len() && (#[trigger] subs[i]).id == id
}

/// Whether no two entries of `subs` carry the same id.
spec fn distinct(subs: Seq<Subscriber>) -> bool {
    forall|i: int, j: int|
        0 <= i < subs.len() && 0 <= j < subs.len() && (#[trigger] subs[i]).id == (
        #[trigger] subs[j]).id ==> i == j
}

/// The number of the oldest signal that a subscription at `cursor` can
/// still receive.
spec fn oldest(cursor: int, published: int, capacity: int) -> int {
    if published - cursor > capacity {
        published - capacity
    } else {
        cursor
    }
}

/// The queue of a subscription at `cursor`.
spec fn pending_from(cursor: int, published: int, capacity: int) -> Seq<nat> {
    let lo = oldest(cursor, published, capacity);
    Seq::new((published - lo) as nat, |k: int| (lo + k) as nat)
}

proof fn lemma_position(subs: Seq<Subscriber>, i: int)
    requires
        distinct(subs),
        0 <= i < subs.len(),
    ensures
        holds(subs, subs[i].id),
        position(subs, subs[i].id) == i,
{
}

proof fn lemma_pending_after_publish(cursor: int, published: int, capacity: int)
    requires
        0 <= cursor <= published,
        capacity >= 1,
    ensures
        pending_from(cursor, published + 1, capacity) == enqueue(
            pending_from(cursor, published, capacity),
            capacity as nat,
            published as nat,
        ),
{
    assert(pending_from(cursor, published + 1, capacity) =~= enqueue(
        pending_from(cursor, published, capacity),
        capacity as nat,
        published as nat,
    ));
}

proof fn lemma_pending_after_receive(cursor: int, published: int, capacity: int)
    requires
        0 <= cursor <= published,
        capacity >= 1,
        oldest(cursor, published, capacity) < published,
    ensures
        pending_from(oldest(cursor, published, capacity) + 1, published, capacity)
            == pending_from(cursor, published, capacity).drop_first(),
        pending_from(cursor, published, capacity).first() == oldest(cursor, published, capacity),
{
    assert(pending_from(oldest(cursor, published, capacity) + 1, published, capacity)
        =~= pending_from(cursor, published, capacity).drop_first());
}

impl View for Broadcaster {
    type V = Channel;

    closed spec fn view(&self) -> Channel {
        Channel {
            capacity: self.capacity as nat,
            published: self.published as nat,
            issued: self.issued as nat,
            queues: Map::new(
                |id: u64| holds(self.subscribers@, id),
                |id: u64|
                    pending_from(
                        self.subscribers@[position(self.subscribers@, id)].cursor as int,
                        self.published as int,
                        self.capacity as int,
                    ),
            ),
        }
    }
}

impl Broadcaster {
    /// Whether the registry is consistent: no subscription is entered twice,
    /// and no cursor is ahead of the signals published.
    pub closed spec fn wf(&self) -> bool {
        &&& self.capacity >= 1
        &&& distinct(self.subscribers@)
        &&& forall|i: int|
            0 <= i < self.subscribers@.len() ==> (#[trigger] self.subscribers@[i]).id
                < self.issued
        &&& forall|i: int|
            0 <= i < self.subscribers@.len() ==> (#[trigger] self.subscribers@[i]).cursor
                <= self.published
    }

    /// A consistent registry is modelled by a channel that meets the
    /// channel invariant.
    pub proof fn lemma_view_inv(&self)
        requires
            self.wf(),
        ensures
            self@.inv(),
    {
        let c = self@;
        assert forall|id: u64| #[trigger] c.queues.contains_key(id) implies id < c.issued
            && c.queues[id].len() <= c.capacity by {
            let i = position(self.subscribers@, id);
            assert(self.subscribers@[i].id == id);
        }
        assert forall|id: u64, k: int|
            c.queues.contains_key(id) && 0 <= k < c.queues[id].len() implies (
        #[trigger] c.queues[id][k]) < c.published by {
            let i = position(self.subscribers@, id);
            assert(self.subscribers@[i].id == id);
        }
        assert forall|id: u64, j: int, k: int|
            c.queues.contains_key(id) && 0 <= j < k < c.queues[id].len() implies (
        #[trigger] c.queues[id][j]) < (#[trigger] c.queues[id][k]) by {
            let i = position(self.subscribers@, id);
            assert(self.subscribers@[i].id == id);
        }
    }

    /// A broadcaster with queues of [`DEFAULT_CAPACITY`] signals and no
    /// subscription.
    pub fn new() -> (b: Broadcaster)
        ensures
            b.wf(),
            b@ == Channel::empty(DEFAULT_CAPACITY as nat),
    {
        let b = Broadcaster {
            capacity: DEFAULT_CAPACITY,
            published: 0,
            issued: 0,
            subscribers: Vec::new(),
        };
        assert(b@.queues =~= Map::empty());
        b
    }

    /// A broadcaster with queues of `capacity` signals and no subscription.
    /// A queue must hold at least one signal: there is none for capacity
    /// zero.
    pub fn with_capacity(capacity: usize) -> (r: Option<Broadcaster>)
        ensures
            r is Some <==> capacity >= 1,
            r matches Some(b) ==> b.wf() && b@ == Channel::empty(capacity as nat),
    {
        if capacity == 0 {
            return None;
        }
        let b = Broadcaster { capacity, published: 0, issued: 0, subscribers: Vec::new() };
        assert(b@.queues =~= Map::empty());
        Some(b)
    }

    /// How many signals a subscription can hold.
    pub fn capacity(&self) -> (n: usize)
        ensures
            n == self@.capacity,
    {
        self.capacity
    }

    /// How many signals were published so far.
    pub fn published(&self) -> (n: u64)
        ensures
            n == self@.published,
    {
        self.published
    }

    /// How many subscriptions are live.
    pub fn subscriber_count(&self) -> (n: usize)
        requires
            self.wf(),
        ensures
            n == self@.queues.dom().len(),
            self@.queues.dom().finite(),
    {
        proof {
            self.lemma_dom_len(self.subscribers@.len() as int);
            assert(self.ids_below(self.subscribers@.len() as int) =~= self@.queues.dom());
        }
        self.subscribers.len()
    }

    /// The ids of the first `n` entries of the registry.
    spec fn ids_below(&self, n: int) -> Set<u64> {
        Set::new(|id: u64| exists|i: int| 0 <= i < n && (#[trigger] self.subscribers@[i]).id == id)
    }

    proof fn lemma_dom_len(&self, n: int)
        requires
            self.wf(),
            0 <= n <= self.subscribers@.len(),
        ensures
            self.ids_below(n).finite(),
            self.ids_below(n).len() == n,
        decreases n,
    {
        if n == 0 {
            assert(self.ids_below(0) =~= Set::empty());
        } else {
            self.lemma_dom_len(n - 1);
            let last = self.subscribers@[n - 1].id;
            assert(!self.ids_below(n - 1).contains(last));
            assert(self.ids_below(n) =~= self.ids_below(n - 1).insert(last));
        }
    }

    /// The index of subscription `id` in the registry, if it is live.
    fn index_of(&self, id: u64) -> (r: Option<usize>)
        requires
            self.wf(),
        ensures
            r is Some <==> self@.queues.contains_key(id),
            r matches Some(i) ==> i < self.subscribers@.len() && self.subscribers@[i as int].id
                == id && position(self.subscribers@, id) == i,
    {
        let mut i: usize = 0;
        while i < self.subscribers.len()
            invariant
                i <= self.subscribers@.len(),
                self.wf(),
                forall|j: int| 0 <= j < i ==> (#[trigger] self.subscribers@[j]).id != id,
            decreases self.subscribers@.len() - i,
        {
            if self.subscribers[i].id == id {
                proof {
                    lemma_position(self.subscribers@, i as int);
                }
                return Some(i);
            }
            i = i + 1;
        }
        None
    }

    /// Whether subscription `id` is live.
    pub fn is_subscribed(&self, id: u64) -> (r: bool)
        requires
            self.wf(),
        ensures
            r == self@.queues.contains_key(id),
    {
        self.index_of(id).is_some()
    }

    /// How many signals subscription `id` has still to receive; `None`
    /// where no such subscription is live.
    pub fn pending(&self, id: u64) -> (r: Option<usize>)
        requires
            self.wf(),
        ensures
            r is Some <==> self@.queues.contains_key(id),
            r matches Some(n) ==> n == self@.queues[id].len(),
    {
        match self.index_of(id) {
            None => None,
            Some(i) => {
                let lag: u64 = self.published - self.subscribers[i].cursor;
                if lag > self.capacity as u64 {
                    Some(self.capacity)
                } else {
                    Some(lag as usize)
                }
            },
        }
    }

    /// Makes a subscription and returns its id. It starts with nothing to
    /// receive, whatever was published before. `None`, with nothing
    /// changed, once every id has been given out.
    pub fn subscribe(&mut self) -> (r: Option<u64>)
        requires
            old(self).wf(),
        ensures
            final(self).wf(),
            final(self)@ == old(self)@.subscribe(),
            r is Some <==> old(self)@.can_subscribe(),
            r matches Some(id) ==> id == old(self)@.issued,
    {
        if self.issued == u64::MAX {
            return None;
        }
        let id: u64 = self.issued;
        let ghost before = self.subscribers@;
        self.issued = id + 1;
        self.subscribers.push(Subscriber { id, cursor: self.published });
        proof {
            let after = self.subscribers@;
            assert(forall|i: int| 0 <= i < before.len() ==> after[i] == before[i]);
            assert(after[before.len() as int].id == id);
            assert(distinct(after));
            assert forall|k: u64| holds(after, k) <==> (k == id || holds(before, k)) by {
                if holds(after, k) {
                    let i = position(after, k);
                    if i < before.len() {
                        assert(before[i].id == k);
                    }
                }
                if holds(before, k) {
                    let i = position(before, k);
                    assert(after[i].id == k);
                }
            }
            assert forall|k: u64| holds(before, k) implies after[position(after, k)].cursor
                == before[position(before, k)].cursor by {
                let i = position(before, k);
                assert(after[i].id == k);
                lemma_position(after, i);
            }
            lemma_position(after, before.len() as int);
            assert(pending_from(
                self.published as int,
                self.published as int,
                self.capacity as int,
            ) =~= Seq::<nat>::empty());
            assert(self@.queues =~= old(self)@.subscribe().queues);
        }
        Some(id)
    }

    /// Ends subscription `id` and says whether it was live. No other
    /// subscription is touched.
    pub fn unsubscribe(&mut self, id: u64) -> (r: bool)
        requires
            old(self).wf(),
        ensures
            final(self).wf(),
            final(self)@ == old(self)@.unsubscribe(id),
            r == old(self)@.queues.contains_key(id),
    {
        match self.index_of(id) {
            None => {
                assert(self@.queues.remove(id) =~= self@.queues);
                false
            },
            Some(i) => {
                let ghost before = self.subscribers@;
                self.subscribers.remove(i);
                proof {
                    let after = self.subscribers@;
                    assert(after == before.remove(i as int));
                    assert forall|j: int| 0 <= j < after.len() implies #[trigger] after[j] == (
                    if j < i {
                        before[j]
                    } else {
                        before[j + 1]
                    }) by {}
                    assert(distinct(after)) by {
                        assert forall|a: int, b: int|
                            0 <= a < after.len() && 0 <= b < after.len() && (
                            #[trigger] after[a]).id == (#[trigger] after[b]).id implies a == b by {
                            let a0 = if a < i { a } else { a + 1 };
                            let b0 = if b < i { b } else { b + 1 };
                            assert(before[a0].id == before[b0].id);
                        }
                    }
                    assert forall|k: u64| holds(after, k) <==> (k != id && holds(before, k)) by {
                        if holds(after, k) {
                            let j = position(after, k);
                            let j0 = if j < i { j } else { j + 1 };
                            assert(before[j0].id == k);
                        }
                        if k != id && holds(before, k) {
                            let j0 = position(before, k);
                            let j = if j0 < i { j0 } else { j0 - 1 };
                            assert(after[j].id == k);
                        }
                    }
                    assert forall|k: u64| holds(after, k) implies after[position(after, k)].cursor
                        == before[position(before, k)].cursor by {
                        let j = position(after, k);
                        let j0 = if j < i { j } else { j + 1 };
                        assert(before[j0].id == k);
                        lemma_position(before, j0);
                    }
                    assert(self@.queues =~= old(self)@.unsubscribe(id).queues);
                }
                true
            },
        }
    }

    /// Publishes one signal to every live subscription and returns its
    /// number. The call does the same work however many subscriptions there
    /// are and however far behind they have fallen: a subscription whose
    /// queue is full loses its oldest signal. `None`, with nothing changed,
    /// once every number has been given out.
    pub fn publish(&mut self, signal: ReloadSignal) -> (r: Option<u64>)
        requires
            old(self).wf(),
        ensures
            final(self).wf(),
            final(self)@ == old(self)@.publish(),
            r is Some <==> old(self)@.can_publish(),
            r matches Some(n) ==> n == old(self)@.published,
    {
        if self.published == u64::MAX {
            return None;
        }
        let number: u64 = self.published;
        self.published = number + 1;
        proof {
            assert forall|id: u64| old(self)@.queues.contains_key(id) implies self@.queues[id] == enqueue(
                old(self)@.queues[id],
                old(self)@.capacity,
                old(self)@.published,
            ) by {
                let i = position(self.subscribers@, id);
                assert(self.subscribers@[i].id == id);
                lemma_pending_after_publish(
                    self.subscribers@[i].cursor as int,
                    number as int,
                    self.capacity as int,
                );
            }
            assert(self@.queues =~= old(self)@.publish().queues);
        }
        Some(number)
    }

    /// Takes the oldest signal that subscription `id` has still to receive
    /// and returns its number. `None`, with nothing changed, where the
    /// subscription has nothing to receive or is not live.
    pub fn receive(&mut self, id: u64) -> (r: Option<u64>)
        requires
            old(self).wf(),
        ensures
            final(self).wf(),
            final(self)@ == old(self)@.receive(id),
            r is Some <==> old(self)@.has_pending(id),
            r matches Some(n) ==> n == old(self)@.queues[id].first(),
    {
        match self.index_of(id) {
            None => None,
            Some(i) => {
                let cursor: u64 = self.subscribers[i].cursor;
                let next: u64 = if self.published - cursor > self.capacity as u64 {
                    self.published - self.capacity as u64
                } else {
                    cursor
                };
                if next == self.published {
                    return None;
                }
                let ghost before = self.subscribers@;
                self.subscribers[i].cursor = next + 1;
                proof {
                    let after = self.subscribers@;
                    assert(after.len() == before.len());
                    assert(forall|j: int|
                        0 <= j < after.len() ==> (#[trigger] after[j]).id == before[j].id);
                    assert(forall|j: int|
                        0 <= j < after.len() && j != i ==> (#[trigger] after[j]).cursor
                            == before[j].cursor);
                    assert(distinct(after));
                    assert forall|k: u64| holds(after, k) <==> holds(before, k) by {
                        if holds(after, k) {
                            let j = position(after, k);
                            assert(before[j].id == k);
                        }
                        if holds(before, k) {
                            let j = position(before, k);
                            assert(after[j].id == k);
                        }
                    }
                    assert forall|k: u64| holds(before, k) implies position(after, k)
                        == position(before, k) by {
                        let j = position(before, k);
                        assert(after[j].id == k);
                        lemma_position(after, j);
                    }
                    lemma_pending_after_receive(
                        cursor as int,
                        self.published as int,
                        self.capacity as int,
                    );
                    assert(self@.queues =~= old(self)@.receive(id).queues);
                }
                Some(next)
            },
        }
    }
}

} // verus!
