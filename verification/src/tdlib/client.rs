//! [`TdClient`]: the handle to a running TDLib client.
//!
//! A thread outside receives updates and hands them on to everyone who
//! subscribed; whoever subscribes is known by a number here.

use vstd::prelude::*;

verus! {

/// How long the receiving thread rests when there is no update, in
/// milliseconds.
pub const POLL_PAUSE_MS: u64 = 20;

/// What became of an update that was sent to a subscriber.
#[derive(Clone, Copy, Debug, PartialEq, Eq, Structural)]
pub enum Sent {
    Delivered,
    /// The channel is full.
    Full,
    /// The subscriber is gone.
    Closed,
}

/// What the receiving thread got when it asked for an update.
#[derive(Clone, Copy, Debug, PartialEq, Eq, Structural)]
pub enum Polled {
    /// An update, and whether it could be handed on.
    Update { delivered: bool },
    Nothing,
}

/// What the receiving thread does next.
#[derive(Clone, Copy, Debug, PartialEq, Eq, Structural)]
pub enum Pump {
    /// Ask again.
    Poll,
    /// Rest, then ask again.
    Pause,
    Stop,
}

/// The state of a client.
pub struct ClientView {
    pub client_id: i32,
    /// Cleared to stop the receiving thread.
    pub running: bool,
    /// Who subscribed, in order.
    pub subscribers: Seq<u64>,
    /// The last number given to a subscriber.
    pub last: u64,
}

impl ClientView {
    /// The client with one more subscriber.
    pub open spec fn subscribed(self) -> ClientView {
        ClientView {
            subscribers: self.subscribers.push((self.last + 1) as u64),
            last: (self.last + 1) as u64,
            ..self
        }
    }

    /// The client after an update was sent to the subscribers.
    pub open spec fn dispatched(self, sent: Seq<Sent>) -> ClientView {
        ClientView { subscribers: still_there(self.subscribers, sent), ..self }
    }
}

/// The subscribers that are still there; `sent` tells of each what became of
/// the update.
pub open spec fn still_there(subscribers: Seq<u64>, sent: Seq<Sent>) -> Seq<u64>
    decreases subscribers.len(),
{
    if subscribers.len() == 0 {
        Seq::empty()
    } else {
        let n = subscribers.len() - 1;
        let rest = still_there(subscribers.drop_last(), sent);
        if n < sent.len() && sent[n] == Sent::Closed {
            rest
        } else {
            rest.push(subscribers.last())
        }
    }
}

/// A running TDLib client.
#[derive(Debug)]
pub struct TdClient {
    client_id: i32,
    running: bool,
    subscribers: Vec<u64>,
    last: u64,
}

impl View for TdClient {
    type V = ClientView;

    closed spec fn view(&self) -> ClientView {
        ClientView {
            client_id: self.client_id,
            running: self.running,
            subscribers: self.subscribers@,
            last: self.last,
        }
    }
}

impl TdClient {
    /// A client that runs, without subscribers.
    pub fn new(client_id: i32) -> (r: TdClient)
        ensures
            r@ == (ClientView { client_id, running: true, subscribers: Seq::empty(), last: 0 }),
    {
        let r = TdClient { client_id, running: true, subscribers: Vec::new(), last: 0 };
        assert(r@.subscribers =~= Seq::empty());
        r
    }

    /// The identifier of the client.
    pub fn client_id(&self) -> (r: i32)
        ensures
            r == self@.client_id,
    {
        self.client_id
    }

    /// Signals the receiving thread to stop.
    pub fn shutdown(&mut self)
        ensures
            final(self)@ == (ClientView { running: false, ..old(self)@ }),
    {
        self.running = false;
    }

    /// Whether the receiving thread is to go on.
    pub fn running(&self) -> (r: bool)
        ensures
            r == self@.running,
    {
        self.running
    }

    /// Who subscribed, in order.
    pub fn subscribers(&self) -> (r: &Vec<u64>)
        ensures
            r@ == self@.subscribers,
    {
        &self.subscribers
    }

    /// Adds a subscriber and returns its number.
    pub fn subscribe(&mut self) -> (r: u64)
        requires
            old(self)@.last < u64::MAX,
        ensures
            r == old(self)@.last + 1,
            final(self)@ == old(self)@.subscribed(),
    {
        let r: u64 = self.last + 1;
        self.last = r;
        self.subscribers.push(r);
        r
    }

    /// An update was sent to the subscribers; `sent` tells of each, in order,
    /// what became of it. Those that are gone are dropped.
    pub fn dispatch(&mut self, sent: &Vec<Sent>)
        ensures
            final(self)@ == old(self)@.dispatched(sent@),
    {
        let ghost all = self.subscribers@;
        let mut kept: Vec<u64> = Vec::new();
        assert(kept@ =~= still_there(all.take(0), sent@));
        for i in 0..self.subscribers.len()
            invariant
                all == self.subscribers@,
                kept@ == still_there(all.take(i as int), sent@),
        {
            assert(all.take(i + 1).drop_last() =~= all.take(i as int));
            let gone: bool = i < sent.len() && sent[i] == Sent::Closed;
            if !gone {
                kept.push(self.subscribers[i]);
            }
        }
        assert(all.take(all.len() as int) =~= all);
        self.subscribers = kept;
    }
}

/// What the receiving thread does after it asked for an update.
pub fn pump(running: bool, polled: Polled) -> (r: Pump)
    ensures
        r == (if !running || polled == (Polled::Update { delivered: false }) {
            Pump::Stop
        } else if polled == Polled::Nothing {
            Pump::Pause
        } else {
            Pump::Poll
        }),
{
    if !running {
        return Pump::Stop;
    }
    match polled {
        Polled::Update { delivered } => if delivered {
            Pump::Poll
        } else {
            Pump::Stop
        },
        Polled::Nothing => Pump::Pause,
    }
}

// --- Laws --------------------------------------------------------------------

/// A subscriber stays as long as it is not gone, and one that is gone is
/// dropped; the order never changes.
pub proof fn only_the_gone_are_dropped(subscribers: Seq<u64>, sent: Seq<Sent>)
    requires
        subscribers.len() == sent.len(),
        subscribers.no_duplicates(),
    ensures
        forall|i: int|
            0 <= i < subscribers.len() ==> (still_there(subscribers, sent).contains(
                #[trigger] subscribers[i],
            ) <==> sent[i] != Sent::Closed),
        forall|k: int|
            0 <= k < still_there(subscribers, sent).len() ==> subscribers.contains(
                #[trigger] still_there(subscribers, sent)[k],
            ),
{
    lemma_still_there(subscribers, sent, subscribers.len() as int);
    assert(subscribers.take(subscribers.len() as int) =~= subscribers);
    let kept = still_there(subscribers, sent);
    assert forall|i: int| 0 <= i < subscribers.len() && kept.contains(
        #[trigger] subscribers[i],
    ) implies sent[i] != Sent::Closed by {
        let k = choose|k: int| 0 <= k < kept.len() && kept[k] == subscribers[i];
        let j = choose|j: int|
            0 <= j < subscribers.len() && #[trigger] subscribers[j] == kept[k] && sent[j]
                != Sent::Closed;
        assert(j == i);
    }
}

/// Something that happens to a client: someone subscribes, or an update is sent
/// to every subscriber, in order.
pub enum ClientEvent<U> {
    Subscribed,
    Dispatched { update: U, sent: Seq<Sent> },
}

/// The client after some events.
pub open spec fn client_after<U>(c: ClientView, events: Seq<ClientEvent<U>>) -> ClientView
    decreases events.len(),
{
    if events.len() == 0 {
        c
    } else {
        let before = client_after(c, events.drop_last());
        match events.last() {
            ClientEvent::Subscribed => before.subscribed(),
            ClientEvent::Dispatched { update, sent } => before.dispatched(sent),
        }
    }
}

/// Whether events can happen to a client: numbers do not run out, every
/// subscriber is sent every update, and no channel is ever full.
pub open spec fn can_happen<U>(c: ClientView, events: Seq<ClientEvent<U>>) -> bool
    decreases events.len(),
{
    events.len() == 0 || {
        let before = client_after(c, events.drop_last());
        &&& can_happen(c, events.drop_last())
        &&& match events.last() {
            ClientEvent::Subscribed => before.last < u64::MAX,
            ClientEvent::Dispatched { update, sent } => sent.len() == before.subscribers.len()
                && forall|i: int| 0 <= i < sent.len() ==> #[trigger] sent[i] != Sent::Full,
        }
    }
}

/// What one dispatch delivers to the subscriber `id`.
pub open spec fn handed<U>(subscribers: Seq<u64>, sent: Seq<Sent>, id: u64, update: U) -> Seq<U>
    decreases subscribers.len(),
{
    if subscribers.len() == 0 {
        Seq::empty()
    } else {
        let n = subscribers.len() - 1;
        let rest = handed(subscribers.drop_last(), sent, id, update);
        if subscribers.last() == id && n < sent.len() && sent[n] == Sent::Delivered {
            rest.push(update)
        } else {
            rest
        }
    }
}

/// What the subscriber `id` received, in order.
pub open spec fn received<U>(c: ClientView, events: Seq<ClientEvent<U>>, id: u64) -> Seq<U>
    decreases events.len(),
{
    if events.len() == 0 {
        Seq::empty()
    } else {
        let rest = received(c, events.drop_last(), id);
        match events.last() {
            ClientEvent::Subscribed => rest,
            ClientEvent::Dispatched { update, sent } => rest + handed(
                client_after(c, events.drop_last()).subscribers,
                sent,
                id,
                update,
            ),
        }
    }
}

/// The updates that were dispatched since `id` was given to a subscriber.
pub open spec fn updates_since<U>(c: ClientView, events: Seq<ClientEvent<U>>, id: u64) -> Seq<U>
    decreases events.len(),
{
    if events.len() == 0 {
        Seq::empty()
    } else {
        match events.last() {
            ClientEvent::Subscribed => if client_after(c, events.drop_last()).last + 1 == id {
                Seq::empty()
            } else {
                updates_since(c, events.drop_last(), id)
            },
            ClientEvent::Dispatched { update, sent } => updates_since(
                c,
                events.drop_last(),
                id,
            ).push(update),
        }
    }
}

/// Whether the numbers of the subscribers grow, up to the last one given.
pub open spec fn numbers_grow(c: ClientView) -> bool {
    &&& forall|i: int, j: int|
        0 <= i < j < c.subscribers.len() ==> (#[trigger] c.subscribers[i]) < (
        #[trigger] c.subscribers[j])
    &&& forall|i: int| 0 <= i < c.subscribers.len() ==> 0 < (#[trigger] c.subscribers[i]) <= c.last
}

proof fn lemma_kept_in_order(subscribers: Seq<u64>, sent: Seq<Sent>)
    requires
        forall|i: int, j: int|
            0 <= i < j < subscribers.len() ==> (#[trigger] subscribers[i]) < (
            #[trigger] subscribers[j]),
    ensures
        ({
            let kept = still_there(subscribers, sent);
            &&& forall|i: int, j: int|
                0 <= i < j < kept.len() ==> (#[trigger] kept[i]) < (#[trigger] kept[j])
            &&& forall|i: int|
                0 <= i < kept.len() ==> subscribers.contains(#[trigger] kept[i])
        }),
    decreases subscribers.len(),
{
    if subscribers.len() > 0 {
        let before = subscribers.drop_last();
        lemma_kept_in_order(before, sent);
        let kept = still_there(subscribers, sent);
        let rest = still_there(before, sent);
        assert forall|i: int| 0 <= i < kept.len() implies subscribers.contains(
            #[trigger] kept[i],
        ) by {
            if i < rest.len() {
                assert(before.contains(rest[i]));
                let k = choose|k: int| 0 <= k < before.len() && before[k] == rest[i];
                assert(subscribers[k] == kept[i]);
            } else {
                assert(subscribers[subscribers.len() - 1] == kept[i]);
            }
        }
        assert forall|i: int, j: int| 0 <= i < j < kept.len() implies (#[trigger] kept[i]) < (
        #[trigger] kept[j]) by {
            if j < rest.len() {
                assert(rest[i] < rest[j]);
            } else {
                assert(before.contains(rest[i]));
                let k = choose|k: int| 0 <= k < before.len() && before[k] == rest[i];
                assert(subscribers[k] < subscribers[subscribers.len() - 1]);
            }
        }
    }
}

proof fn lemma_numbers_grow<U>(c: ClientView, events: Seq<ClientEvent<U>>)
    requires
        numbers_grow(c),
        can_happen(c, events),
    ensures
        numbers_grow(client_after(c, events)),
        client_after(c, events).last >= c.last,
    decreases events.len(),
{
    if events.len() > 0 {
        lemma_numbers_grow(c, events.drop_last());
        let before = client_after(c, events.drop_last());
        match events.last() {
            ClientEvent::Subscribed => {},
            ClientEvent::Dispatched { update, sent } => {
                lemma_kept_in_order(before.subscribers, sent);
                let after = before.dispatched(sent);
                assert forall|i: int| 0 <= i < after.subscribers.len() implies 0 < (
                #[trigger] after.subscribers[i]) <= after.last by {
                    assert(before.subscribers.contains(after.subscribers[i]));
                    let k = choose|k: int|
                        0 <= k < before.subscribers.len() && before.subscribers[k]
                            == after.subscribers[i];
                    assert(before.subscribers[k] <= before.last);
                }
            },
        }
    }
}

proof fn lemma_handed<U>(subscribers: Seq<u64>, sent: Seq<Sent>, id: u64, update: U)
    requires
        forall|i: int, j: int|
            0 <= i < j < subscribers.len() ==> (#[trigger] subscribers[i]) < (
            #[trigger] subscribers[j]),
        subscribers.len() <= sent.len(),
        forall|i: int| 0 <= i < sent.len() ==> #[trigger] sent[i] != Sent::Full,
    ensures
        still_there(subscribers, sent).contains(id) ==> handed(subscribers, sent, id, update)
            == seq![update],
        !subscribers.contains(id) ==> handed(subscribers, sent, id, update) == Seq::<U>::empty(),
    decreases subscribers.len(),
{
    if subscribers.len() > 0 {
        let before = subscribers.drop_last();
        let n = subscribers.len() - 1;
        lemma_handed(before, sent, id, update);
        lemma_kept_in_order(before, sent);
        let rest = still_there(before, sent);
        let kept = still_there(subscribers, sent);
        if before.contains(id) {
            let k = choose|k: int| 0 <= k < before.len() && before[k] == id;
            assert(subscribers[k] < subscribers[n]);
            if kept.contains(id) {
                let i = choose|i: int| 0 <= i < kept.len() && kept[i] == id;
                assert(i < rest.len());
                assert(rest[i] == id);
                assert(rest.contains(id));
            }
            assert(subscribers[k] == id);
        } else {
            assert(!rest.contains(id));
            if subscribers.last() == id {
                assert(subscribers[n] == id);
                if sent[n] != Sent::Closed {
                    assert(sent[n] == Sent::Delivered);
                    assert(handed(subscribers, sent, id, update) =~= seq![update]);
                } else {
                    assert(kept == rest);
                }
            } else {
                assert(!subscribers.contains(id)) by {
                    if subscribers.contains(id) {
                        let k = choose|k: int| 0 <= k < subscribers.len() && subscribers[k] == id;
                        assert(before[k] == id);
                    }
                }
                if kept.contains(id) {
                    let i = choose|i: int| 0 <= i < kept.len() && kept[i] == id;
                    if i < rest.len() {
                        assert(rest[i] == id);
                    }
                }
            }
        }
    }
}

/// A number that was not given out yet received nothing.
proof fn lemma_nothing_received<U>(c: ClientView, events: Seq<ClientEvent<U>>, id: u64)
    requires
        numbers_grow(c),
        can_happen(c, events),
        client_after(c, events).last < id,
    ensures
        received(c, events, id) == Seq::<U>::empty(),
    decreases events.len(),
{
    if events.len() > 0 {
        let before = client_after(c, events.drop_last());
        lemma_numbers_grow(c, events.drop_last());
        lemma_nothing_received(c, events.drop_last(), id);
        match events.last() {
            ClientEvent::Subscribed => {},
            ClientEvent::Dispatched { update, sent } => {
                assert(!before.subscribers.contains(id));
                lemma_handed(before.subscribers, sent, id, update);
                assert(received(c, events, id) =~= Seq::<U>::empty());
            },
        }
    }
}

/// Every subscriber that is still there received every update since it
/// subscribed, exactly once and in order, and none from before.
pub proof fn subscribers_receive_every_update<U>(
    client_id: i32,
    events: Seq<ClientEvent<U>>,
    id: u64,
)
    requires
        ({
            let c = ClientView { client_id, running: true, subscribers: Seq::empty(), last: 0 };
            can_happen(c, events) && client_after(c, events).subscribers.contains(id)
        }),
    ensures
        ({
            let c = ClientView { client_id, running: true, subscribers: Seq::empty(), last: 0 };
            received(c, events, id) == updates_since(c, events, id)
        }),
    decreases events.len(),
{
    let c = ClientView { client_id, running: true, subscribers: Seq::empty(), last: 0 };
    if events.len() > 0 {
        let rest = events.drop_last();
        let before = client_after(c, rest);
        let after = client_after(c, events);
        lemma_numbers_grow(c, rest);
        let k = choose|k: int| 0 <= k < after.subscribers.len() && after.subscribers[k] == id;
        match events.last() {
            ClientEvent::Subscribed => {
                if before.last + 1 == id {
                    lemma_nothing_received(c, rest, id);
                } else {
                    assert(before.subscribers[k] == id);
                    subscribers_receive_every_update(client_id, rest, id);
                }
            },
            ClientEvent::Dispatched { update, sent } => {
                lemma_kept_in_order(before.subscribers, sent);
                assert(before.subscribers.contains(after.subscribers[k]));
                subscribers_receive_every_update(client_id, rest, id);
                lemma_handed(before.subscribers, sent, id, update);
                assert(received(c, events, id) =~= updates_since(c, events, id));
            },
        }
    }
}

/// Subscribers stay in the order in which they came, and one that is gone never
/// comes back: its number is not given out again.
pub proof fn subscribers_keep_their_order<U>(c: ClientView, events: Seq<ClientEvent<U>>, id: u64)
    requires
        numbers_grow(c),
        can_happen(c, events),
        id <= c.last,
        !c.subscribers.contains(id),
    ensures
        numbers_grow(client_after(c, events)),
        !client_after(c, events).subscribers.contains(id),
    decreases events.len(),
{
    lemma_numbers_grow(c, events);
    if events.len() > 0 {
        let rest = events.drop_last();
        subscribers_keep_their_order(c, rest, id);
        lemma_numbers_grow(c, rest);
        let before = client_after(c, rest);
        let after = client_after(c, events);
        if after.subscribers.contains(id) {
            let k = choose|k: int| 0 <= k < after.subscribers.len() && after.subscribers[k] == id;
            match events.last() {
                ClientEvent::Subscribed => {
                    assert(before.subscribers[k] == id);
                },
                ClientEvent::Dispatched { update, sent } => {
                    lemma_kept_in_order(before.subscribers, sent);
                    assert(before.subscribers.contains(after.subscribers[k]));
                },
            }
        }
    }
}

proof fn lemma_still_there(subscribers: Seq<u64>, sent: Seq<Sent>, n: int)
    requires
        0 <= n <= subscribers.len(),
        subscribers.len() == sent.len(),
    ensures
        forall|i: int|
            0 <= i < n && sent[i] != Sent::Closed ==> still_there(
                subscribers.take(n),
                sent,
            ).contains(#[trigger] subscribers[i]),
        forall|k: int|
            0 <= k < still_there(subscribers.take(n), sent).len() ==> exists|j: int|
                0 <= j < n && #[trigger] subscribers[j] == #[trigger] still_there(
                    subscribers.take(n),
                    sent,
                )[k] && sent[j] != Sent::Closed,
    decreases n,
{
    if n > 0 {
        lemma_still_there(subscribers, sent, n - 1);
        let before = still_there(subscribers.take(n - 1), sent);
        let after = still_there(subscribers.take(n), sent);
        assert(subscribers.take(n).drop_last() =~= subscribers.take(n - 1));
        assert forall|i: int| 0 <= i < n && sent[i] != Sent::Closed implies after.contains(
            #[trigger] subscribers[i],
        ) by {
            if i < n - 1 {
                assert(before.contains(subscribers[i]));
                let k = choose|k: int| 0 <= k < before.len() && before[k] == subscribers[i];
                assert(after[k] == subscribers[i]);
            } else {
                assert(after[after.len() - 1] == subscribers[i]);
            }
        }
        assert forall|k: int| 0 <= k < after.len() implies exists|j: int|
            0 <= j < n && #[trigger] subscribers[j] == #[trigger] after[k] && sent[j]
                != Sent::Closed by {
            if k < before.len() {
                assert(after[k] == before[k]);
                let j = choose|j: int|
                    0 <= j < n - 1 && #[trigger] subscribers[j] == before[k] && sent[j]
                        != Sent::Closed;
                assert(subscribers[j] == after[k]);
            } else {
                assert(subscribers[n - 1] == after[k]);
            }
        }
    }
}

} // verus!
