//! Routing of what the transport yields: system notices, named application
//! events, and the gap that stands for events lost to overload.

use vstd::prelude::*;

verus! {

#[derive(Clone, Debug, PartialEq, Eq)]
pub enum EventKind {
    /// A lifecycle notice of the channel or the connection.
    System,
    /// A named business event.
    Application(String),
}

#[derive(Clone, Debug, PartialEq, Eq)]
pub struct InboundEvent {
    pub kind: EventKind,
    pub payload: String,
    pub sequence: u64,
}

/// One thing yielded by the transport's bounded event buffer.
#[derive(Clone, Debug, PartialEq, Eq)]
pub enum Received {
    Event(InboundEvent),
    /// This many events were dropped before they could be read.
    Lagged(u64),
    /// The channel was left or the connection shut down for good.
    Closed,
}

/// What to do with one thing received.
#[derive(Clone, Debug, PartialEq, Eq)]
pub enum Dispatch {
    /// Hand the event to this handler.
    Deliver { handler: u64, event: InboundEvent },
    /// Tell the overflow handler that `count` events were missed.
    Missed { handler: u64, count: u64 },
    /// No handler is registered: note the event and drop it.
    Discard(InboundEvent),
    /// Nothing more will come: the dispatcher ends.
    Stop,
}

/// The binding of one application event name to a handler.
#[derive(Clone, Debug, PartialEq, Eq)]
pub struct Route {
    pub name: String,
    pub handler: u64,
}

#[derive(Clone, Debug, PartialEq, Eq)]
pub struct EventDispatcher {
    /// The handler of system notices, if any.
    pub system: Option<u64>,
    /// The bindings for application events; a later one overrides an earlier
    /// one of the same name.
    pub routes: Vec<Route>,
    /// The handler that is told of missed events.
    pub overflow: u64,
}

/// The handler bound to `name`: the one of the latest binding.
pub open spec fn lookup(routes: Seq<Route>, name: Seq<char>) -> Option<u64>
    decreases routes.len(),
{
    if routes.len() == 0 {
        None
    } else if routes.last().name@ == name {
        Some(routes.last().handler)
    } else {
        lookup(routes.drop_last(), name)
    }
}

/// The handler for events of `kind`, if one is registered.
pub open spec fn handler_for(d: EventDispatcher, kind: EventKind) -> Option<u64> {
    match kind {
        EventKind::System => d.system,
        EventKind::Application(name) => lookup(d.routes@, name@),
    }
}

/// The routing rule.
pub open spec fn dispatch_spec(d: EventDispatcher, received: Received) -> Dispatch {
    match received {
        Received::Event(event) => match handler_for(d, event.kind) {
            Some(handler) => Dispatch::Deliver { handler, event },
            None => Dispatch::Discard(event),
        },
        Received::Lagged(count) => Dispatch::Missed { handler: d.overflow, count },
        Received::Closed => Dispatch::Stop,
    }
}

/// A gap of `count` events gives one notice of exactly that count to the
/// overflow handler, carrying no payload; and such a notice comes of nothing
/// but a gap.
pub proof fn lemma_gap_reported_exactly(d: EventDispatcher, received: Received)
    ensures
        received matches Received::Lagged(count) ==> dispatch_spec(d, received) == (Dispatch::Missed {
            handler: d.overflow,
            count,
        }),
        dispatch_spec(d, received) is Missed ==> received is Lagged,
        dispatch_spec(d, received) is Deliver ==> received is Event && dispatch_spec(
            d,
            received,
        )->Deliver_event == received->Event_0,
{
}

/// The count of inbound events that found no room in the buffer and are
/// still to be made known.
#[derive(Clone, Copy, Debug, PartialEq, Eq, Structural)]
pub struct GapCounter {
    pub missed: u64,
}

/// The count after one more event was missed.
pub open spec fn one_more(missed: u64) -> u64 {
    if missed == u64::MAX {
        missed
    } else {
        (missed + 1) as u64
    }
}

/// What becomes of an arriving `event` when the buffer has `room` free
/// places and `missed` events are still to be made known: the new count, and
/// what goes into the buffer. A gap is made known before anything that
/// arrived after it; what finds no room is counted.
pub open spec fn taken_in(missed: u64, room: usize, event: InboundEvent) -> (u64, Seq<Received>) {
    if missed == 0 {
        if room >= 1 {
            (0, seq![Received::Event(event)])
        } else {
            (1, Seq::empty())
        }
    } else if room >= 2 {
        (0, seq![Received::Lagged(missed), Received::Event(event)])
    } else if room == 1 {
        (1, seq![Received::Lagged(missed)])
    } else {
        (one_more(missed), Seq::empty())
    }
}

/// What becomes of the count when nothing arrives and the buffer has `room`
/// free places: a gap still unknown is made known as soon as there is room.
pub open spec fn reported(missed: u64, room: usize) -> (u64, Seq<Received>) {
    if missed > 0 && room >= 1 {
        (0, seq![Received::Lagged(missed)])
    } else {
        (missed, Seq::empty())
    }
}

/// How many events `items` account for: one for each event, and for each
/// gap as many as it counts.
pub open spec fn told(items: Seq<Received>) -> nat
    decreases items.len(),
{
    if items.len() == 0 {
        0
    } else {
        told(items.drop_last()) + match items.last() {
            Received::Event(_) => 1nat,
            Received::Lagged(count) => count as nat,
            Received::Closed => 0nat,
        }
    }
}

/// Every event is accounted for, once: what goes into the buffer and what
/// is still counted make up what was counted before and the event that
/// arrived. No more goes in than there is room, and a gap goes in as one
/// notice with the whole count.
pub proof fn lemma_every_event_is_accounted_for(missed: u64, room: usize, event: InboundEvent)
    requires
        missed < u64::MAX,
    ensures
        told(taken_in(missed, room, event).1) + taken_in(missed, room, event).0 == missed + 1,
        taken_in(missed, room, event).1.len() <= room,
        told(reported(missed, room).1) + reported(missed, room).0 == missed,
        reported(missed, room).1.len() <= room,
{
    let out = taken_in(missed, room, event).1;
    reveal_with_fuel(told, 3);
    if out.len() == 2 {
        assert(out.drop_last() =~= seq![Received::Lagged(missed)]);
        assert(out.drop_last().drop_last() =~= Seq::<Received>::empty());
    } else if out.len() == 1 {
        assert(out.drop_last() =~= Seq::<Received>::empty());
    }
    let rep = reported(missed, room).1;
    if rep.len() == 1 {
        assert(rep.drop_last() =~= Seq::<Received>::empty());
    }
}

impl GapCounter {
    /// A counter with nothing missed.
    pub fn new() -> (g: GapCounter)
        ensures
            g.missed == 0,
    {
        GapCounter { missed: 0 }
    }

    /// Takes an arriving event: the result is what to put into the buffer,
    /// which has `room` free places.
    pub fn take_in(&mut self, room: usize, event: InboundEvent) -> (out: Vec<Received>)
        ensures
            (final(self).missed, out@) == taken_in(old(self).missed, room, event),
    {
        let mut out: Vec<Received> = Vec::new();
        if self.missed == 0 {
            if room >= 1 {
                out.push(Received::Event(event));
            } else {
                self.missed = 1;
            }
        } else if room >= 2 {
            out.push(Received::Lagged(self.missed));
            out.push(Received::Event(event));
            self.missed = 0;
        } else if room == 1 {
            out.push(Received::Lagged(self.missed));
            self.missed = 1;
        } else if self.missed < u64::MAX {
            self.missed = self.missed + 1;
        }
        assert(out@ =~= taken_in(old(self).missed, room, event).1);
        out
    }

    /// Makes a gap known while nothing arrives: the result is what to put
    /// into the buffer, which has `room` free places.
    pub fn report(&mut self, room: usize) -> (out: Vec<Received>)
        ensures
            (final(self).missed, out@) == reported(old(self).missed, room),
    {
        let mut out: Vec<Received> = Vec::new();
        if self.missed > 0 && room >= 1 {
            out.push(Received::Lagged(self.missed));
            self.missed = 0;
        }
        assert(out@ =~= reported(old(self).missed, room).1);
        out
    }
}

impl EventDispatcher {
    /// A dispatcher with no handler but the one for missed events.
    pub fn new(overflow: u64) -> (d: EventDispatcher)
        ensures
            d.system == None::<u64>,
            d.routes@.len() == 0,
            d.overflow == overflow,
    {
        EventDispatcher { system: None, routes: Vec::new(), overflow }
    }

    /// Sets the handler of system notices.
    pub fn on_system(&mut self, handler: u64)
        ensures
            final(self).system == Some(handler),
            final(self).routes == old(self).routes,
            final(self).overflow == old(self).overflow,
    {
        self.system = Some(handler);
    }

    /// Binds the application event `name` to `handler`, in place of any
    /// earlier binding of that name.
    pub fn on_event(&mut self, name: String, handler: u64)
        ensures
            final(self).system == old(self).system,
            final(self).overflow == old(self).overflow,
            final(self).routes@ == old(self).routes@.push(Route { name, handler }),
            forall|n: Seq<char>|
                #[trigger] lookup(final(self).routes@, n) == if n == name@ {
                    Some(handler)
                } else {
                    lookup(old(self).routes@, n)
                },
    {
        self.routes.push(Route { name, handler });
        assert(self.routes@.drop_last() =~= old(self).routes@);
    }

    /// The handler bound to the application event `name`.
    pub fn handler_of(&self, name: &String) -> (r: Option<u64>)
        ensures
            r == lookup(self.routes@, name@),
    {
        let mut i: usize = self.routes.len();
        assert(self.routes@.take(i as int) =~= self.routes@);
        while i > 0
            invariant
                i <= self.routes@.len(),
                lookup(self.routes@, name@) == lookup(self.routes@.take(i as int), name@),
            decreases i,
        {
            i = i - 1;
            assert(self.routes@.take(i + 1).drop_last() =~= self.routes@.take(i as int));
            assert(self.routes@.take(i + 1).last() == self.routes@[i as int]);
            if self.routes[i].name == *name {
                return Some(self.routes[i].handler);
            }
        }
        None
    }

    /// Routes one thing received.
    pub fn dispatch(&self, received: Received) -> (r: Dispatch)
        ensures
            r == dispatch_spec(*self, received),
    {
        match received {
            Received::Event(event) => {
                let found = match &event.kind {
                    EventKind::System => self.system,
                    EventKind::Application(name) => self.handler_of(name),
                };
                match found {
                    Some(handler) => Dispatch::Deliver { handler, event },
                    None => Dispatch::Discard(event),
                }
            },
            Received::Lagged(count) => Dispatch::Missed { handler: self.overflow, count },
            Received::Closed => Dispatch::Stop,
        }
    }

    /// Routes a batch in the order in which the transport yielded it: no
    /// reordering, one outcome for each thing received.
    pub fn dispatch_all(&self, batch: Vec<Received>) -> (out: Vec<Dispatch>)
        ensures
            out@.len() == batch@.len(),
            forall|i: int| 0 <= i < batch@.len() ==> #[trigger] out@[i] == dispatch_spec(*self, batch@[i]),
    {
        let mut rest = batch;
        let mut out: Vec<Dispatch> = Vec::new();
        while rest.len() > 0
            invariant
                out@.len() + rest@.len() == batch@.len(),
                forall|i: int| 0 <= i < out@.len() ==> #[trigger] out@[i] == dispatch_spec(*self, batch@[i]),
                forall|j: int| 0 <= j < rest@.len() ==> #[trigger] rest@[j] == batch@[out@.len() + j],
            decreases rest@.len(),
        {
            let ghost before = rest@;
            let next = rest.remove(0);
            assert(forall|j: int| 0 <= j < rest@.len() ==> #[trigger] rest@[j] == before[j + 1]);
            out.push(self.dispatch(next));
        }
        out
    }
}

} // verus!
