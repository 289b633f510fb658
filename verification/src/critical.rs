//! Delivery with acknowledgement, for sources marked critical: each event
//! goes out as a call, and a call that fails is made again, a fixed number
//! of times at most.

use vstd::prelude::*;
use crate::channel::ChannelState;
use crate::channel::ControlChannel;
use crate::channel::NotJoined;
use crate::channel::PendingCall;
use crate::channel::deadline;
use crate::message::LocalEvent;
use crate::message::OutboundMessage;
use crate::message::Payload;
use crate::message::event_name;
use crate::message::is_request;
use crate::uplink::counted;

verus! {

#[derive(Clone, Copy, Debug, PartialEq, Eq, Structural)]
pub struct RetryPolicy {
    /// Time allowed for each reply, in milliseconds.
    pub timeout_ms: u64,
    /// How often a failed call is made again.
    pub retries: u32,
}

/// An event whose call is waiting for its reply.
#[derive(Clone, Debug, PartialEq, Eq)]
pub struct Attempt {
    /// The correlation id of the call in flight.
    pub id: u64,
    pub event: LocalEvent,
    pub retries_left: u32,
}

#[derive(Clone, Debug, PartialEq, Eq)]
pub struct CriticalOutbox {
    pub policy: RetryPolicy,
    /// The events not yet acknowledged, in the order of their latest call.
    pub inflight: Vec<Attempt>,
    /// Events given up after the last retry failed.
    pub given_up: u64,
}

/// `i` is the place of the first attempt in flight under `id`.
pub open spec fn first_at(inflight: Seq<Attempt>, id: u64, i: int) -> bool {
    &&& 0 <= i < inflight.len()
    &&& inflight[i].id == id
    &&& forall|j: int| 0 <= j < i ==> (#[trigger] inflight[j]).id != id
}

/// No attempt is in flight under `id`.
pub open spec fn absent(inflight: Seq<Attempt>, id: u64) -> bool {
    forall|j: int| 0 <= j < inflight.len() ==> (#[trigger] inflight[j]).id != id
}

/// `msg` is the call for `event` under `id`, and `after` is `before` with
/// that call noted as started at `now_ms`.
pub open spec fn called(
    before: ControlChannel,
    after: ControlChannel,
    msg: OutboundMessage,
    event: LocalEvent,
    timeout_ms: u64,
    now_ms: u64,
) -> bool {
    &&& is_request(
        msg,
        before.topic,
        event_name(event.payload),
        Payload::Local(event),
        timeout_ms,
        before.next_id,
    )
    &&& after.topic == before.topic
    &&& after.state == before.state
    &&& after.last_error == before.last_error
    &&& after.next_id == before.next_id + 1
    &&& after.pending@ == before.pending@.push(
        PendingCall { id: before.next_id, deadline_ms: deadline(now_ms, timeout_ms) },
    )
}

impl CriticalOutbox {
    pub fn new(policy: RetryPolicy) -> (o: CriticalOutbox)
        ensures
            o.policy == policy,
            o.inflight@.len() == 0,
            o.given_up == 0,
    {
        CriticalOutbox { policy, inflight: Vec::new(), given_up: 0 }
    }

    /// The place of the first attempt in flight under `id`.
    pub fn locate(&self, id: u64) -> (r: Option<usize>)
        ensures
            match r {
                Some(i) => first_at(self.inflight@, id, i as int),
                None => absent(self.inflight@, id),
            },
    {
        let mut i: usize = 0;
        while i < self.inflight.len()
            invariant
                i <= self.inflight@.len(),
                forall|j: int| 0 <= j < i ==> (#[trigger] self.inflight@[j]).id != id,
            decreases self.inflight@.len() - i,
        {
            if self.inflight[i].id == id {
                return Some(i);
            }
            i = i + 1;
        }
        None
    }

    /// Sends `event` as a call with the policy's timeout and notes it as in
    /// flight with all its retries left; `NotJoined`, and nothing noted,
    /// unless the channel is joined.
    pub fn send(&mut self, channel: &mut ControlChannel, event: LocalEvent, now_ms: u64) -> (r: Result<
        OutboundMessage,
        NotJoined,
    >)
        requires
            old(channel).wf(),
            old(channel).next_id < u64::MAX,
        ensures
            final(channel).wf(),
            final(self).policy == old(self).policy,
            final(self).given_up == old(self).given_up,
            old(channel).state != ChannelState::Joined ==> {
                &&& r == Err::<OutboundMessage, NotJoined>(NotJoined)
                &&& *final(channel) == *old(channel)
                &&& final(self).inflight@ == old(self).inflight@
            },
            old(channel).state == ChannelState::Joined ==> {
                &&& r is Ok
                &&& called(*old(channel), *final(channel), r->Ok_0, event, old(self).policy.timeout_ms, now_ms)
                &&& final(self).inflight@ == old(self).inflight@.push(
                    Attempt { id: old(channel).next_id, event, retries_left: old(self).policy.retries },
                )
            },
    {
        if !channel.is_joined() {
            return Err(NotJoined);
        }
        let id: u64 = channel.next_id;
        let copy = event.duplicate();
        let name = event.payload.event_name();
        let r = channel.call(name, Payload::Local(copy), self.policy.timeout_ms, now_ms);
        self.inflight.push(Attempt { id, event, retries_left: self.policy.retries });
        r
    }

    /// The call `id` was answered: its event is done. `false` if no such
    /// call was in flight.
    pub fn confirmed(&mut self, id: u64) -> (known: bool)
        ensures
            final(self).policy == old(self).policy,
            final(self).given_up == old(self).given_up,
            known == !absent(old(self).inflight@, id),
            !known ==> final(self).inflight@ == old(self).inflight@,
            forall|i: int| #[trigger]
                first_at(old(self).inflight@, id, i) ==> final(self).inflight@ == old(self).inflight@.remove(i),
    {
        match self.locate(id) {
            Some(i) => {
                let _ = self.inflight.remove(i);
                assert(old(self).inflight@[i as int].id == id);
                assert forall|k: int| #[trigger] first_at(old(self).inflight@, id, k) implies k == i by {
                    if k < i {
                        assert(old(self).inflight@[k].id != id);
                    } else if i < k {
                        assert(old(self).inflight@[i as int].id != id);
                    }
                }
                true
            },
            None => false,
        }
    }

    /// The call `id` failed, by timeout, rejection or loss of the link. With
    /// a retry left and the channel joined its event is called again, under
    /// a fresh id: the result is the request to send. Otherwise the event is
    /// given up and counted. A call that was not in flight changes nothing.
    pub fn failed(&mut self, channel: &mut ControlChannel, id: u64, now_ms: u64) -> (r: Option<OutboundMessage>)
        requires
            old(channel).wf(),
            old(channel).next_id < u64::MAX,
        ensures
            final(channel).wf(),
            final(self).policy == old(self).policy,
            absent(old(self).inflight@, id) ==> {
                &&& r is None
                &&& *final(channel) == *old(channel)
                &&& final(self).inflight@ == old(self).inflight@
                &&& final(self).given_up == old(self).given_up
            },
            forall|i: int| #[trigger]
                first_at(old(self).inflight@, id, i) ==> {
                    let a = old(self).inflight@[i];
                    if a.retries_left > 0 && old(channel).state == ChannelState::Joined {
                        &&& r is Some
                        &&& called(
                            *old(channel),
                            *final(channel),
                            r->Some_0,
                            a.event,
                            old(self).policy.timeout_ms,
                            now_ms,
                        )
                        &&& final(self).inflight@ == old(self).inflight@.remove(i).push(
                            Attempt {
                                id: old(channel).next_id,
                                event: a.event,
                                retries_left: (a.retries_left - 1) as u32,
                            },
                        )
                        &&& final(self).given_up == old(self).given_up
                    } else {
                        &&& r is None
                        &&& *final(channel) == *old(channel)
                        &&& final(self).inflight@ == old(self).inflight@.remove(i)
                        &&& final(self).given_up == counted(old(self).given_up)
                    }
                },
    {
        match self.locate(id) {
            None => None,
            Some(i) => {
                let attempt = self.inflight.remove(i);
                assert(old(self).inflight@[i as int].id == id);
                assert forall|k: int| #[trigger] first_at(old(self).inflight@, id, k) implies k == i by {
                    if k < i {
                        assert(old(self).inflight@[k].id != id);
                    } else if i < k {
                        assert(old(self).inflight@[i as int].id != id);
                    }
                }
                if attempt.retries_left > 0 && channel.is_joined() {
                    let fresh: u64 = channel.next_id;
                    let copy = attempt.event.duplicate();
                    let name = attempt.event.payload.event_name();
                    let r = channel.call(name, Payload::Local(copy), self.policy.timeout_ms, now_ms);
                    self.inflight.push(
                        Attempt { id: fresh, event: attempt.event, retries_left: attempt.retries_left - 1 },
                    );
                    match r {
                        Ok(msg) => Some(msg),
                        Err(_) => None,
                    }
                } else {
                    self.given_up = if self.given_up == u64::MAX {
                        self.given_up
                    } else {
                        self.given_up + 1
                    };
                    None
                }
            },
        }
    }
}

} // verus!
