//! The uplink multiplexer: many local sources, one outbound stream. Order
//! is kept within each source; while the channel is not joined the latest
//! events of each source are held back, the oldest giving way.

use vstd::prelude::*;
use crate::channel::ChannelState;
use crate::channel::ControlChannel;
use crate::message::LocalEvent;
use crate::message::OutboundMessage;
use crate::message::Payload;
use crate::message::event_name;
use crate::message::is_publication;

verus! {

/// How many events of one source are held back unless told otherwise.
pub const DEFAULT_BOUND: usize = 100;

/// One registered source with what is held back for it.
#[derive(Clone, Debug, PartialEq, Eq)]
pub struct SourceSlot {
    pub id: u64,
    /// Events not yet published, oldest first.
    pub backlog: Vec<LocalEvent>,
    /// Events given up because the backlog was full.
    pub dropped: u64,
}

#[derive(Clone, Debug, PartialEq, Eq)]
pub struct UplinkMultiplexer {
    /// The most events held back for one source.
    pub bound: usize,
    pub slots: Vec<SourceSlot>,
}

/// The backlog after `e` arrives while nothing can be sent: `e` is appended,
/// and at the bound the oldest event makes room. With a bound of zero nothing
/// is held.
pub open spec fn buffered<T>(backlog: Seq<T>, bound: nat, e: T) -> Seq<T> {
    if bound == 0 {
        backlog
    } else if backlog.len() >= bound {
        backlog.drop_first().push(e)
    } else {
        backlog.push(e)
    }
}

/// What becomes of an arriving event `e`, given what is `held` for its
/// source: the new backlog, and what is published now. Joined, the backlog
/// goes out oldest first and `e` after it; otherwise `e` is held back.
pub open spec fn accepted<T>(held: Seq<T>, bound: nat, joined: bool, e: T) -> (Seq<T>, Seq<T>) {
    if joined {
        (Seq::empty(), held.push(e))
    } else {
        (buffered(held, bound, e), Seq::empty())
    }
}

/// What becomes of a backlog when publishing is taken up again: the new
/// backlog, and what is published now.
pub open spec fn resumed<T>(held: Seq<T>, joined: bool) -> (Seq<T>, Seq<T>) {
    if joined {
        (Seq::empty(), held)
    } else {
        (held, Seq::empty())
    }
}

/// Whether an arriving event costs the source one event: nothing can be
/// sent and the backlog is at its bound.
pub open spec fn overflows<T>(held: Seq<T>, bound: nat, joined: bool) -> bool {
    !joined && held.len() >= bound
}

/// The drop count after one more event is given up.
pub open spec fn counted(dropped: u64) -> u64 {
    if dropped == u64::MAX {
        dropped
    } else {
        (dropped + 1) as u64
    }
}

/// The backlog after a whole run of arrivals with nothing sent in between.
pub open spec fn buffered_all(arrivals: Seq<LocalEvent>, bound: nat) -> Seq<LocalEvent>
    decreases arrivals.len(),
{
    if arrivals.len() == 0 {
        Seq::empty()
    } else {
        buffered(buffered_all(arrivals.drop_last(), bound), bound, arrivals.last())
    }
}

/// `msgs` are the publications of `events` on `topic`, one for one and in
/// the same order.
pub open spec fn published(msgs: Seq<OutboundMessage>, topic: String, events: Seq<LocalEvent>) -> bool {
    &&& msgs.len() == events.len()
    &&& forall|i: int|
        0 <= i < events.len() ==> is_publication(
            #[trigger] msgs[i],
            topic,
            event_name(events[i].payload),
            Payload::Local(events[i]),
        )
}

/// The backlogs of `slots` one after the other, in the order of the slots.
pub open spec fn backlogs(slots: Seq<SourceSlot>) -> Seq<LocalEvent>
    decreases slots.len(),
{
    if slots.len() == 0 {
        Seq::empty()
    } else {
        backlogs(slots.drop_last()) + slots.last().backlog@
    }
}

/// How many events a whole run of arrivals costs a source while nothing is
/// sent in between: one for each arrival that finds the backlog at its bound.
pub open spec fn dropped_all(arrivals: Seq<LocalEvent>, bound: nat) -> nat
    decreases arrivals.len(),
{
    if arrivals.len() == 0 {
        0
    } else if overflows(buffered_all(arrivals.drop_last(), bound), bound, false) {
        dropped_all(arrivals.drop_last(), bound) + 1
    } else {
        dropped_all(arrivals.drop_last(), bound)
    }
}

/// An outage costs a source exactly the events beyond the bound: of `n`
/// arrivals under the bound `b`, `n - b` are given up, or none if `n <= b`.
pub proof fn lemma_outage_drops_the_excess(arrivals: Seq<LocalEvent>, bound: nat)
    ensures
        dropped_all(arrivals, bound) == if arrivals.len() <= bound {
            0
        } else {
            arrivals.len() - bound
        },
    decreases arrivals.len(),
{
    if arrivals.len() > 0 {
        lemma_outage_drops_the_excess(arrivals.drop_last(), bound);
        lemma_backlog_keeps_latest(arrivals.drop_last(), bound);
    }
}

/// Where the backlog of slot `i` begins among the backlogs of `slots`.
pub open spec fn offset_of(slots: Seq<SourceSlot>, i: int) -> int {
    backlogs(slots.take(i)).len() as int
}

/// When everything held back is published, each source's events stand
/// together, in the order in which they were held.
pub proof fn lemma_backlogs_keep_each_source(slots: Seq<SourceSlot>, i: int)
    requires
        0 <= i < slots.len(),
    ensures
        offset_of(slots, i) + slots[i].backlog@.len() <= backlogs(slots).len(),
        backlogs(slots).subrange(offset_of(slots, i), offset_of(slots, i) + slots[i].backlog@.len())
            == slots[i].backlog@,
    decreases slots.len(),
{
    let front = slots.drop_last();
    if i == slots.len() - 1 {
        assert(slots.take(i) =~= front);
        assert(backlogs(slots).subrange(offset_of(slots, i), offset_of(slots, i) + slots[i].backlog@.len())
            =~= slots[i].backlog@);
    } else {
        lemma_backlogs_keep_each_source(front, i);
        assert(front.take(i) =~= slots.take(i));
        assert(front[i] == slots[i]);
        assert(backlogs(slots).subrange(offset_of(slots, i), offset_of(slots, i) + slots[i].backlog@.len())
            =~= backlogs(front).subrange(offset_of(front, i), offset_of(front, i) + front[i].backlog@.len()));
    }
}

/// Whatever arrives during an outage, what is held back for a source is the
/// latest `bound` of its events, in the order in which it produced them.
pub proof fn lemma_backlog_keeps_latest(arrivals: Seq<LocalEvent>, bound: nat)
    ensures
        buffered_all(arrivals, bound) == if arrivals.len() <= bound {
            arrivals
        } else {
            arrivals.subrange(arrivals.len() - bound, arrivals.len() as int)
        },
    decreases arrivals.len(),
{
    if arrivals.len() > 0 {
        let before = arrivals.drop_last();
        lemma_backlog_keeps_latest(before, bound);
        let now = buffered_all(arrivals, bound);
        if arrivals.len() <= bound {
            assert(now =~= arrivals);
        } else {
            assert(now =~= arrivals.subrange(arrivals.len() - bound, arrivals.len() as int));
        }
    }
}

/// One turn of a source: an event arrives, or publishing is taken up
/// again, while the channel is joined or not.
pub struct Turn {
    pub joined: bool,
    pub arrival: bool,
}

/// The course of one source, with each event named by its place in the
/// order of production: what was published, what is held back, and how many
/// events the source has produced.
pub struct Flow {
    pub sent: Seq<int>,
    pub held: Seq<int>,
    pub seen: int,
}

/// The course after one more turn.
pub open spec fn flow_step(f: Flow, t: Turn, bound: nat) -> Flow {
    if t.arrival {
        let r = accepted(f.held, bound, t.joined, f.seen);
        Flow { sent: f.sent + r.1, held: r.0, seen: f.seen + 1 }
    } else {
        let r = resumed(f.held, t.joined);
        Flow { sent: f.sent + r.1, held: r.0, seen: f.seen }
    }
}

/// The course after a whole run of turns.
pub open spec fn flow(turns: Seq<Turn>, bound: nat) -> Flow
    decreases turns.len(),
{
    if turns.len() == 0 {
        Flow { sent: Seq::empty(), held: Seq::empty(), seen: 0 }
    } else {
        flow_step(flow(turns.drop_last(), bound), turns.last(), bound)
    }
}

/// The places in `s` rise, and each is one of the first `seen`.
pub open spec fn in_production_order(s: Seq<int>, seen: int) -> bool {
    &&& forall|i: int, j: int| 0 <= i < j < s.len() ==> (#[trigger] s[i]) < (#[trigger] s[j])
    &&& forall|i: int| 0 <= i < s.len() ==> 0 <= (#[trigger] s[i]) && s[i] < seen
}

/// Through any run of outages and recoveries, what a source has had
/// published, followed by what is held back for it, is in the order in which
/// the source produced it, nothing twice; and no more is held than the bound.
pub proof fn lemma_source_order_kept(turns: Seq<Turn>, bound: nat)
    ensures
        in_production_order(flow(turns, bound).sent + flow(turns, bound).held, flow(turns, bound).seen),
        flow(turns, bound).held.len() <= bound,
        flow(turns, bound).seen >= 0,
    decreases turns.len(),
{
    if turns.len() > 0 {
        let f = flow(turns.drop_last(), bound);
        let g = flow(turns, bound);
        lemma_source_order_kept(turns.drop_last(), bound);
        let before = f.sent + f.held;
        let after = g.sent + g.held;
        let t = turns.last();
        let cut = f.sent.len() as int;
        if !t.arrival {
            assert(after =~= before);
        } else if t.joined || (bound > 0 && f.held.len() < bound) {
            assert(after =~= before.push(f.seen));
            assert forall|i: int, j: int| 0 <= i < j < after.len() implies (#[trigger] after[i]) < (
            #[trigger] after[j]) by {
                assert(after[i] == before[i]);
                if j < before.len() {
                    assert(after[j] == before[j]);
                }
            }
            assert forall|i: int| 0 <= i < after.len() implies 0 <= (#[trigger] after[i]) && after[i]
                < g.seen by {
                if i < before.len() {
                    assert(after[i] == before[i]);
                }
            }
        } else if bound == 0 {
            assert(after =~= before);
            assert forall|i: int| 0 <= i < after.len() implies 0 <= (#[trigger] after[i]) && after[i]
                < g.seen by {
                assert(after[i] == before[i]);
            }
        } else {
            assert(g.held =~= f.held.drop_first().push(f.seen));
            assert(after.len() == before.len());
            let from = |i: int| if i < cut { i } else { i + 1 };
            assert forall|i: int| 0 <= i < after.len() - 1 implies #[trigger] after[i] == before[from(i)] by {
                if i >= cut {
                    assert(after[i] == g.held[i - cut]);
                    assert(g.held[i - cut] == f.held[i - cut + 1]);
                    assert(before[i + 1] == f.held[i + 1 - cut]);
                } else {
                    assert(after[i] == f.sent[i]);
                    assert(before[i] == f.sent[i]);
                }
            }
            assert(after[after.len() - 1] == f.seen);
            assert forall|i: int, j: int| 0 <= i < j < after.len() implies (#[trigger] after[i]) < (
            #[trigger] after[j]) by {
                assert(after[i] == before[from(i)]);
                if j < after.len() - 1 {
                    assert(after[j] == before[from(j)]);
                }
            }
            assert forall|i: int| 0 <= i < after.len() implies 0 <= (#[trigger] after[i]) && after[i]
                < g.seen by {
                if i < after.len() - 1 {
                    assert(after[i] == before[from(i)]);
                }
            }
        }
    }
}

/// While the channel is not joined nothing is published, whatever arrives
/// and however often publishing is tried: what was sent after an outage is
/// what was sent before it.
pub proof fn lemma_silent_while_not_joined(before: Seq<Turn>, outage: Seq<Turn>, bound: nat)
    requires
        forall|i: int| 0 <= i < outage.len() ==> !outage[i].joined,
    ensures
        flow(before + outage, bound).sent == flow(before, bound).sent,
    decreases outage.len(),
{
    if outage.len() == 0 {
        assert(before + outage =~= before);
    } else {
        assert((before + outage).drop_last() =~= before + outage.drop_last());
        lemma_silent_while_not_joined(before, outage.drop_last(), bound);
        let f = flow(before + outage.drop_last(), bound);
        assert(!outage.last().joined);
        assert((before + outage).last() == outage.last());
        assert(f.sent + Seq::<int>::empty() =~= f.sent);
    }
}

/// Publications keep their order when one run follows another.
pub proof fn lemma_published_concat(
    a: Seq<OutboundMessage>,
    b: Seq<OutboundMessage>,
    topic: String,
    x: Seq<LocalEvent>,
    y: Seq<LocalEvent>,
)
    requires
        published(a, topic, x),
        published(b, topic, y),
    ensures
        published(a + b, topic, x + y),
{
    assert forall|i: int| 0 <= i < (x + y).len() implies is_publication(
        #[trigger] (a + b)[i],
        topic,
        event_name((x + y)[i].payload),
        Payload::Local((x + y)[i]),
    ) by {
        if i < x.len() {
            assert((a + b)[i] == a[i]);
        } else {
            assert((a + b)[i] == b[i - x.len()]);
        }
    }
}

/// Publishes a whole backlog on a joined channel, oldest event first, after
/// what `out` already holds.
fn drain(channel: &ControlChannel, backlog: &mut Vec<LocalEvent>, out: &mut Vec<OutboundMessage>)
    requires
        channel.state == ChannelState::Joined,
    ensures
        final(backlog)@.len() == 0,
        final(out)@.len() == old(out)@.len() + old(backlog)@.len(),
        final(out)@.subrange(0, old(out)@.len() as int) == old(out)@,
        published(
            final(out)@.subrange(old(out)@.len() as int, final(out)@.len() as int),
            channel.topic,
            old(backlog)@,
        ),
{
    let ghost first = out@.len();
    let ghost events = backlog@;
    while backlog.len() > 0
        invariant
            channel.state == ChannelState::Joined,
            first == old(out)@.len(),
            events == old(backlog)@,
            out@.len() + backlog@.len() == first + events.len(),
            out@.len() >= first,
            out@.subrange(0, first as int) == old(out)@,
            backlog@ == events.subrange(out@.len() - first, events.len() as int),
            forall|k: int|
                0 <= k < out@.len() - first ==> is_publication(
                    #[trigger] out@[first + k],
                    channel.topic,
                    event_name(events[k].payload),
                    Payload::Local(events[k]),
                ),
        decreases backlog@.len(),
    {
        let ghost sent = out@;
        let event = backlog.remove(0);
        assert(event == events[sent.len() - first]);
        let name = event.payload.event_name();
        match channel.publish(name, Payload::Local(event)) {
            Ok(msg) => {
                out.push(msg);
            },
            Err(_) => {},
        }
        assert(out@.subrange(0, first as int) =~= sent.subrange(0, first as int));
        assert(backlog@ =~= events.subrange(out@.len() - first, events.len() as int));
        assert forall|k: int| 0 <= k < out@.len() - first implies is_publication(
            #[trigger] out@[first + k],
            channel.topic,
            event_name(events[k].payload),
            Payload::Local(events[k]),
        ) by {
            if k < sent.len() - first {
                assert(out@[first + k] == sent[first + k]);
            }
        }
    }
    assert(published(out@.subrange(first as int, out@.len() as int), channel.topic, events)) by {
        let tail = out@.subrange(first as int, out@.len() as int);
        assert forall|i: int| 0 <= i < events.len() implies is_publication(
            #[trigger] tail[i],
            channel.topic,
            event_name(events[i].payload),
            Payload::Local(events[i]),
        ) by {
            assert(tail[i] == out@[first + i]);
        }
    }
}

impl UplinkMultiplexer {
    /// The invariant: no source is registered twice and no backlog exceeds
    /// the bound.
    pub open spec fn wf(&self) -> bool {
        &&& forall|i: int, j: int|
            0 <= i < j < self.slots@.len() ==> (#[trigger] self.slots@[i]).id != (#[trigger] self.slots@[j]).id
        &&& forall|i: int| 0 <= i < self.slots@.len() ==> (#[trigger] self.slots@[i]).backlog@.len() <= self.bound
    }

    /// Whether the source `id` is registered.
    pub open spec fn has_source(&self, id: u64) -> bool {
        exists|i: int| 0 <= i < self.slots@.len() && (#[trigger] self.slots@[i]).id == id
    }

    /// The slot of the registered source `id`.
    pub open spec fn index_of(&self, id: u64) -> int {
        choose|i: int| 0 <= i < self.slots@.len() && (#[trigger] self.slots@[i]).id == id
    }

    /// What is held back for the source `id`, oldest first.
    pub open spec fn backlog(&self, id: u64) -> Seq<LocalEvent> {
        if self.has_source(id) {
            self.slots@[self.index_of(id)].backlog@
        } else {
            Seq::empty()
        }
    }

    /// How many events of the source `id` were given up.
    pub open spec fn dropped(&self, id: u64) -> u64 {
        if self.has_source(id) {
            self.slots@[self.index_of(id)].dropped
        } else {
            0
        }
    }

    /// The same sources in the same slots.
    pub open spec fn same_sources(&self, other: &UplinkMultiplexer) -> bool {
        &&& self.bound == other.bound
        &&& self.slots@.len() == other.slots@.len()
        &&& forall|i: int| 0 <= i < self.slots@.len() ==> (#[trigger] self.slots@[i]).id == other.slots@[i].id
    }

    /// A multiplexer without sources that holds back up to `bound` events a source.
    pub fn new(bound: usize) -> (m: UplinkMultiplexer)
        ensures
            m.wf(),
            m.bound == bound,
            m.slots@.len() == 0,
    {
        UplinkMultiplexer { bound, slots: Vec::new() }
    }

    /// A multiplexer without sources with the default bound.
    pub fn with_default_bound() -> (m: UplinkMultiplexer)
        ensures
            m.wf(),
            m.bound == DEFAULT_BOUND,
            m.slots@.len() == 0,
    {
        UplinkMultiplexer::new(DEFAULT_BOUND)
    }

    /// The slot of the source `id`, if it is registered.
    pub fn find(&self, id: u64) -> (r: Option<usize>)
        requires
            self.wf(),
        ensures
            r is Some <==> self.has_source(id),
            r matches Some(i) ==> i == self.index_of(id) && i < self.slots@.len() && self.slots@[i as int].id
                == id,
    {
        let mut i: usize = 0;
        while i < self.slots.len()
            invariant
                i <= self.slots@.len(),
                self.wf(),
                forall|j: int| 0 <= j < i ==> (#[trigger] self.slots@[j]).id != id,
            decreases self.slots@.len() - i,
        {
            if self.slots[i].id == id {
                assert(self.slots@[i as int].id == id);
                assert(self.slots@[self.index_of(id)].id == id);
                return Some(i);
            }
            i = i + 1;
        }
        None
    }

    /// How many events are held back for the source `id`.
    pub fn backlog_len(&self, id: u64) -> (n: usize)
        requires
            self.wf(),
        ensures
            n == self.backlog(id).len(),
    {
        match self.find(id) {
            Some(i) => self.slots[i].backlog.len(),
            None => 0,
        }
    }

    /// How many events of the source `id` were given up.
    pub fn dropped_count(&self, id: u64) -> (n: u64)
        requires
            self.wf(),
        ensures
            n == self.dropped(id),
    {
        match self.find(id) {
            Some(i) => self.slots[i].dropped,
            None => 0,
        }
    }

    /// Registers the source `id` with an empty backlog; `false`, and nothing
    /// changes, if it is registered already.
    pub fn register(&mut self, id: u64) -> (added: bool)
        requires
            old(self).wf(),
        ensures
            final(self).wf(),
            final(self).bound == old(self).bound,
            added == !old(self).has_source(id),
            !added ==> final(self).slots@ == old(self).slots@,
            added ==> {
                &&& final(self).slots@.len() == old(self).slots@.len() + 1
                &&& final(self).slots@.drop_last() == old(self).slots@
                &&& final(self).slots@.last().id == id
                &&& final(self).slots@.last().backlog@.len() == 0
                &&& final(self).slots@.last().dropped == 0
                &&& final(self).has_source(id)
            },
    {
        match self.find(id) {
            Some(_) => false,
            None => {
                self.slots.push(SourceSlot { id, backlog: Vec::new(), dropped: 0 });
                assert(self.slots@.drop_last() =~= old(self).slots@);
                assert(self.slots@[self.slots@.len() - 1].id == id);
                true
            },
        }
    }

    /// Unregisters the source `id` and gives up what was held back for it.
    /// The other sources are not touched.
    pub fn unregister(&mut self, id: u64) -> (removed: bool)
        requires
            old(self).wf(),
        ensures
            final(self).wf(),
            final(self).bound == old(self).bound,
            removed == old(self).has_source(id),
            !final(self).has_source(id),
            !removed ==> final(self).slots@ == old(self).slots@,
            removed ==> final(self).slots@ == old(self).slots@.remove(old(self).index_of(id)),
    {
        match self.find(id) {
            Some(i) => {
                let _ = self.slots.remove(i);
                assert forall|k: int| 0 <= k < self.slots@.len() implies (#[trigger] self.slots@[k]).id
                    != id by {
                    assert(self.slots@[k] == old(self).slots@[if k < i { k } else { k + 1 }]);
                }
                assert(self.wf()) by {
                    assert forall|a: int, b: int| 0 <= a < b < self.slots@.len() implies (
                    #[trigger] self.slots@[a]).id != (#[trigger] self.slots@[b]).id by {
                        assert(self.slots@[a] == old(self).slots@[if a < i { a } else { a + 1 }]);
                        assert(self.slots@[b] == old(self).slots@[if b < i { b } else { b + 1 }]);
                    }
                    assert forall|a: int| 0 <= a < self.slots@.len() implies (
                    #[trigger] self.slots@[a]).backlog@.len() <= self.bound by {
                        assert(self.slots@[a] == old(self).slots@[if a < i { a } else { a + 1 }]);
                    }
                }
                true
            },
            None => false,
        }
    }

    /// Takes one event of a local source. On a joined channel the result is
    /// what to publish now: what was held back for that source, oldest
    /// first, and then the event. Otherwise nothing is sent and the event is
    /// held back, the oldest giving way at the bound and being counted. An
    /// event of a source that is not registered is given up.
    pub fn accept(&mut self, channel: &ControlChannel, event: LocalEvent) -> (out: Vec<OutboundMessage>)
        requires
            old(self).wf(),
        ensures
            final(self).wf(),
            final(self).same_sources(old(self)),
            forall|i: int|
                0 <= i < old(self).slots@.len() && (#[trigger] old(self).slots@[i]).id != event.source
                    ==> final(self).slots@[i] == old(self).slots@[i],
            channel.state != ChannelState::Joined || !old(self).has_source(event.source) ==> out@.len() == 0,
            !old(self).has_source(event.source) ==> final(self).slots@ == old(self).slots@,
            old(self).has_source(event.source) ==> {
                let joined = channel.state == ChannelState::Joined;
                let held = old(self).backlog(event.source);
                &&& final(self).backlog(event.source) == accepted(held, old(self).bound as nat, joined, event).0
                &&& published(out@, channel.topic, accepted(held, old(self).bound as nat, joined, event).1)
                &&& final(self).dropped(event.source) == if overflows(held, old(self).bound as nat, joined) {
                    counted(old(self).dropped(event.source))
                } else {
                    old(self).dropped(event.source)
                }
            },
    {
        let mut out: Vec<OutboundMessage> = Vec::new();
        let source: u64 = event.source;
        match self.find(source) {
            None => {},
            Some(i) => {
                let mut slot = self.slots.remove(i);
                let ghost held = slot.backlog@;
                if channel.is_joined() {
                    let mut backlog = slot.backlog;
                    drain(channel, &mut backlog, &mut out);
                    let ghost drained = out@;
                    assert(drained.subrange(0, drained.len() as int) =~= drained);
                    let name = event.payload.event_name();
                    match channel.publish(name, Payload::Local(event)) {
                        Ok(msg) => {
                            out.push(msg);
                        },
                        Err(_) => {},
                    }
                    slot.backlog = backlog;
                    assert(slot.backlog@ =~= Seq::<LocalEvent>::empty());
                    assert(published(out@, channel.topic, held.push(event))) by {
                        assert forall|k: int| 0 <= k < held.len() + 1 implies is_publication(
                            #[trigger] out@[k],
                            channel.topic,
                            event_name(held.push(event)[k].payload),
                            Payload::Local(held.push(event)[k]),
                        ) by {
                            if k < held.len() {
                                assert(out@[k] == drained[k]);
                            }
                        }
                    }
                } else if self.bound == 0 {
                    slot.dropped = if slot.dropped == u64::MAX {
                        slot.dropped
                    } else {
                        slot.dropped + 1
                    };
                } else {
                    if slot.backlog.len() >= self.bound {
                        let _ = slot.backlog.remove(0);
                        slot.dropped = if slot.dropped == u64::MAX {
                            slot.dropped
                        } else {
                            slot.dropped + 1
                        };
                    }
                    slot.backlog.push(event);
                    assert(slot.backlog@ =~= buffered(held, self.bound as nat, event));
                }
                self.slots.insert(i, slot);
                proof {
                    let before = old(self).slots@;
                    let after = self.slots@;
                    assert(after.len() == before.len());
                    assert forall|k: int| 0 <= k < after.len() && k != i implies #[trigger] after[k]
                        == before[k] by {}
                    assert(after[i as int].id == source);
                    assert(before[i as int].id == source);
                    assert(self.wf());
                    assert(self.has_source(source));
                    assert(self.index_of(source) == i);
                }
            },
        }
        out
    }

    /// Publishes everything that is held back, once the channel is joined
    /// again: source after source in the order of registration, each
    /// source's events oldest first. While the channel is not joined nothing
    /// is sent and nothing changes.
    pub fn resume(&mut self, channel: &ControlChannel) -> (out: Vec<OutboundMessage>)
        requires
            old(self).wf(),
        ensures
            final(self).wf(),
            final(self).same_sources(old(self)),
            channel.state != ChannelState::Joined ==> out@.len() == 0
                && final(self).slots@ == old(self).slots@,
            channel.state == ChannelState::Joined ==> published(
                out@,
                channel.topic,
                backlogs(old(self).slots@),
            ),
            forall|i: int|
                0 <= i < final(self).slots@.len() ==> (#[trigger] final(self).slots@[i]).backlog@ == resumed(
                    old(self).slots@[i].backlog@,
                    channel.state == ChannelState::Joined,
                ).0 && final(self).slots@[i].dropped == old(self).slots@[i].dropped,
    {
        let mut out: Vec<OutboundMessage> = Vec::new();
        if !channel.is_joined() {
            return out;
        }
        let mut i: usize = 0;
        while i < self.slots.len()
            invariant
                channel.state == ChannelState::Joined,
                old(self).wf(),
                i <= self.slots@.len(),
                self.same_sources(old(self)),
                published(out@, channel.topic, backlogs(old(self).slots@.take(i as int))),
                forall|k: int|
                    0 <= k < i ==> (#[trigger] self.slots@[k]).backlog@ == Seq::<LocalEvent>::empty()
                        && self.slots@[k].dropped == old(self).slots@[k].dropped,
                forall|k: int| i <= k < self.slots@.len() ==> #[trigger] self.slots@[k] == old(self).slots@[k],
            decreases self.slots@.len() - i,
        {
            let ghost before = self.slots@;
            let ghost sent = out@;
            let mut slot = self.slots.remove(i);
            let ghost held = slot.backlog@;
            let mut backlog = slot.backlog;
            drain(channel, &mut backlog, &mut out);
            slot.backlog = backlog;
            assert(slot.backlog@ =~= Seq::<LocalEvent>::empty());
            self.slots.insert(i, slot);
            proof {
                let after = self.slots@;
                assert(after.len() == before.len());
                assert forall|k: int| 0 <= k < after.len() && k != i implies #[trigger] after[k]
                    == before[k] by {}
                assert(after[i as int].id == before[i as int].id);
                let prefix = old(self).slots@.take(i as int);
                let longer = old(self).slots@.take(i + 1);
                assert(longer.drop_last() =~= prefix);
                assert(longer.last().backlog@ == held);
                let fresh = out@.subrange(sent.len() as int, out@.len() as int);
                lemma_published_concat(sent, fresh, channel.topic, backlogs(prefix), held);
                assert(out@ =~= sent + fresh);
            }
            i = i + 1;
        }
        assert(old(self).slots@.take(i as int) =~= old(self).slots@);
        out
    }
}

} // verus!
