//! Membership in one topic: the join protocol, publishing, and calls that
//! are answered, rejected, timed out or lost.

use vstd::prelude::*;
use crate::connection::ConnectionState;
use crate::message::DeliveryMode;
use crate::message::OutboundMessage;
use crate::message::Payload;
use crate::message::is_publication;
use crate::message::is_request;

verus! {

#[derive(Clone, Copy, Debug, PartialEq, Eq, Structural)]
pub enum ChannelState {
    Idle,
    Joining,
    Joined,
    Left,
    Errored,
}

#[derive(Clone, Copy, Debug, PartialEq, Eq, Structural)]
pub enum JoinError {
    Timeout,
    Rejected,
    ConnectionLost,
}

#[derive(Clone, Copy, Debug, PartialEq, Eq, Structural)]
pub enum CallError {
    Timeout,
    ConnectionLost,
    Rejected,
}

/// The channel is not joined, so nothing can be sent on it.
#[derive(Clone, Copy, Debug, PartialEq, Eq, Structural)]
pub struct NotJoined;

/// How the server, or the lack of it, settled a join request.
#[derive(Clone, Copy, Debug, PartialEq, Eq, Structural)]
pub enum JoinOutcome {
    Accepted,
    Failed(JoinError),
}

/// A call that was sent and is neither answered nor given up.
#[derive(Clone, Copy, Debug, PartialEq, Eq, Structural)]
pub struct PendingCall {
    pub id: u64,
    /// The instant, in milliseconds, at which the call times out.
    pub deadline_ms: u64,
}

/// A call that was given up, with the error that its caller gets.
#[derive(Clone, Copy, Debug, PartialEq, Eq, Structural)]
pub struct FailedCall {
    pub id: u64,
    pub error: CallError,
}

/// What a change of the link means for the channel.
#[derive(Clone, Debug, PartialEq, Eq)]
pub enum LinkReaction {
    Nothing,
    /// The link is back: a join request must be sent now.
    Rejoin,
    /// The link is gone, and with it these calls.
    Abandon(Vec<FailedCall>),
}

#[derive(Clone, Debug, PartialEq, Eq)]
pub struct ControlChannel {
    pub topic: String,
    pub state: ChannelState,
    /// The next correlation id to hand out.
    pub next_id: u64,
    /// The outstanding calls, oldest first.
    pub pending: Vec<PendingCall>,
    pub last_error: Option<JoinError>,
}

/// The correlation ids of `p`, in order.
pub open spec fn ids_of(p: Seq<PendingCall>) -> Seq<u64> {
    Seq::new(p.len(), |i: int| p[i].id)
}

/// The calls under `ids`, each failed with `error`.
pub open spec fn failed_with(ids: Seq<u64>, error: CallError) -> Seq<FailedCall> {
    Seq::new(ids.len(), |i: int| FailedCall { id: ids[i], error })
}

/// What `join_settled` answers when no join is in progress: whether the
/// channel is joined, and if not, the error it last met.
pub open spec fn standing(state: ChannelState, last_error: Option<JoinError>) -> Result<(), JoinError> {
    if state == ChannelState::Joined {
        Ok(())
    } else {
        match last_error {
            Some(e) => Err(e),
            None => Err(JoinError::Rejected),
        }
    }
}

/// The ids of the calls of `p` whose deadline has come at `now_ms`, oldest first.
pub open spec fn overdue(p: Seq<PendingCall>, now_ms: u64) -> Seq<u64>
    decreases p.len(),
{
    if p.len() == 0 {
        Seq::empty()
    } else if p.last().deadline_ms <= now_ms {
        overdue(p.drop_last(), now_ms).push(p.last().id)
    } else {
        overdue(p.drop_last(), now_ms)
    }
}

/// The calls of `p` that still have time at `now_ms`, oldest first.
pub open spec fn outstanding(p: Seq<PendingCall>, now_ms: u64) -> Seq<PendingCall>
    decreases p.len(),
{
    if p.len() == 0 {
        Seq::empty()
    } else if p.last().deadline_ms <= now_ms {
        outstanding(p.drop_last(), now_ms)
    } else {
        outstanding(p.drop_last(), now_ms).push(p.last())
    }
}

/// The deadline of a call started at `now_ms` with `timeout_ms` to go.
pub open spec fn deadline(now_ms: u64, timeout_ms: u64) -> u64 {
    if now_ms + timeout_ms > u64::MAX {
        u64::MAX
    } else {
        (now_ms + timeout_ms) as u64
    }
}

/// Ids were handed out in rising order and none twice.
pub open spec fn ids_rising(p: Seq<PendingCall>, next_id: u64) -> bool {
    &&& forall|i: int| 0 <= i < p.len() ==> (#[trigger] p[i]).id < next_id
    &&& forall|i: int, j: int| 0 <= i < j < p.len() ==> (#[trigger] p[i]).id < (#[trigger] p[j]).id
}

/// Whether `p` holds a call with this `id` whose deadline has come at `now_ms`.
pub open spec fn due_in(p: Seq<PendingCall>, now_ms: u64, id: u64) -> bool {
    exists|i: int| 0 <= i < p.len() && (#[trigger] p[i]).id == id && p[i].deadline_ms <= now_ms
}

/// Every call whose deadline has come is among the overdue, and no other;
/// the calls that wait on are those of before that still have time.
pub proof fn lemma_overdue_exact(p: Seq<PendingCall>, now_ms: u64)
    ensures
        forall|i: int| 0 <= i < p.len() && (#[trigger] p[i]).deadline_ms <= now_ms
            ==> overdue(p, now_ms).contains(p[i].id),
        forall|k: int| 0 <= k < overdue(p, now_ms).len() ==> due_in(p, now_ms, #[trigger] overdue(p, now_ms)[k]),
        forall|k: int| 0 <= k < outstanding(p, now_ms).len()
            ==> (#[trigger] outstanding(p, now_ms)[k]).deadline_ms > now_ms
                && p.contains(outstanding(p, now_ms)[k]),
        overdue(p, now_ms).len() + outstanding(p, now_ms).len() == p.len(),
    decreases p.len(),
{
    if p.len() > 0 {
        let q = p.drop_last();
        lemma_overdue_exact(q, now_ms);
        let od = overdue(p, now_ms);
        let os = outstanding(p, now_ms);
        assert forall|i: int| 0 <= i < p.len() && (#[trigger] p[i]).deadline_ms <= now_ms
            implies od.contains(p[i].id) by {
            if i < q.len() {
                assert(q[i] == p[i]);
                let k = choose|k: int| 0 <= k < overdue(q, now_ms).len() && overdue(q, now_ms)[k] == q[i].id;
                assert(od[k] == p[i].id);
            } else {
                assert(od[od.len() - 1] == p[i].id);
            }
        }
        assert forall|k: int| 0 <= k < od.len() implies due_in(p, now_ms, #[trigger] od[k]) by {
            if k < overdue(q, now_ms).len() {
                let v = overdue(q, now_ms)[k];
                assert(od[k] == v);
                assert(due_in(q, now_ms, v));
                let i = choose|i: int| 0 <= i < q.len() && (#[trigger] q[i]).id == v && q[i].deadline_ms <= now_ms;
                assert(p[i] == q[i]);
            } else {
                assert(p[p.len() - 1].id == od[k]);
            }
        }
        assert forall|k: int| 0 <= k < os.len() implies (#[trigger] os[k]).deadline_ms > now_ms
            && p.contains(os[k]) by {
            if k < outstanding(q, now_ms).len() {
                let x = outstanding(q, now_ms)[k];
                assert(q.contains(x));
                let i = choose|i: int| 0 <= i < q.len() && q[i] == x;
                assert(p[i] == x);
            } else {
                assert(p[p.len() - 1] == os[k]);
            }
        }
    }
}

/// A call that is never answered is given up as soon as its time is over,
/// and not before its deadline: it never waits for ever.
pub proof fn lemma_unanswered_call_times_out(
    p: Seq<PendingCall>,
    id: u64,
    now_ms: u64,
    timeout_ms: u64,
    later_ms: u64,
)
    ensures
        later_ms >= now_ms + timeout_ms ==> overdue(
            p.push(PendingCall { id, deadline_ms: deadline(now_ms, timeout_ms) }),
            later_ms,
        ) == overdue(p, later_ms).push(id) && outstanding(
            p.push(PendingCall { id, deadline_ms: deadline(now_ms, timeout_ms) }),
            later_ms,
        ) == outstanding(p, later_ms),
        later_ms < deadline(now_ms, timeout_ms) ==> overdue(
            p.push(PendingCall { id, deadline_ms: deadline(now_ms, timeout_ms) }),
            later_ms,
        ) == overdue(p, later_ms) && outstanding(
            p.push(PendingCall { id, deadline_ms: deadline(now_ms, timeout_ms) }),
            later_ms,
        ) == outstanding(p, later_ms).push(PendingCall { id, deadline_ms: deadline(now_ms, timeout_ms) }),
{
    let c = PendingCall { id, deadline_ms: deadline(now_ms, timeout_ms) };
    assert(p.push(c).drop_last() =~= p);
    assert(p.push(c).last() == c);
}

/// No two outstanding calls share a correlation id.
pub proof fn lemma_ids_unique(p: Seq<PendingCall>, next_id: u64, i: int, j: int)
    requires
        ids_rising(p, next_id),
        0 <= i < p.len(),
        0 <= j < p.len(),
        i != j,
    ensures
        p[i].id != p[j].id,
{
    if i < j {
        assert(p[i].id < p[j].id);
    } else {
        assert(p[j].id < p[i].id);
    }
}

impl ControlChannel {
    /// The invariant: correlation ids are unique among the outstanding
    /// calls, and calls are outstanding only while joined.
    pub open spec fn wf(&self) -> bool {
        &&& ids_rising(self.pending@, self.next_id)
        &&& self.state != ChannelState::Joined ==> self.pending@.len() == 0
    }

    /// Whether `id` belongs to an outstanding call.
    pub open spec fn awaits(&self, id: u64) -> bool {
        exists|i: int| 0 <= i < self.pending@.len() && (#[trigger] self.pending@[i]).id == id
    }

    /// A channel for `topic` that was never joined.
    pub fn new(topic: String) -> (c: ControlChannel)
        ensures
            c.wf(),
            c.topic == topic,
            c.state == ChannelState::Idle,
            c.next_id == 0,
            c.pending@.len() == 0,
            c.last_error == None::<JoinError>,
    {
        ControlChannel {
            topic,
            state: ChannelState::Idle,
            next_id: 0,
            pending: Vec::new(),
            last_error: None,
        }
    }

    pub fn state(&self) -> (s: ChannelState)
        ensures
            s == self.state,
    {
        self.state
    }

    pub fn is_joined(&self) -> (b: bool)
        ensures
            b == (self.state == ChannelState::Joined),
    {
        self.state == ChannelState::Joined
    }

    /// Number of calls waiting for their reply.
    pub fn outstanding_calls(&self) -> (n: usize)
        ensures
            n == self.pending@.len(),
    {
        self.pending.len()
    }

    /// Whether another correlation id can be handed out.
    pub fn can_call(&self) -> (b: bool)
        ensures
            b == (self.next_id < u64::MAX),
    {
        self.next_id < u64::MAX
    }

    /// Starts a join. Without a link it fails at once; `Ok(true)` means that
    /// a join request must be sent now, `Ok(false)` that the channel is
    /// joined or joining already.
    pub fn begin_join(&mut self, link: ConnectionState) -> (r: Result<bool, JoinError>)
        requires
            old(self).wf(),
        ensures
            final(self).wf(),
            final(self).topic == old(self).topic,
            final(self).next_id == old(self).next_id,
            final(self).pending == old(self).pending,
            final(self).last_error == old(self).last_error,
            link != ConnectionState::Connected ==> r == Err::<bool, JoinError>(JoinError::ConnectionLost)
                && final(self).state == old(self).state,
            link == ConnectionState::Connected && (old(self).state == ChannelState::Joined
                || old(self).state == ChannelState::Joining) ==> r == Ok::<bool, JoinError>(false)
                && final(self).state == old(self).state,
            link == ConnectionState::Connected && old(self).state != ChannelState::Joined
                && old(self).state != ChannelState::Joining ==> r == Ok::<bool, JoinError>(true)
                && final(self).state == ChannelState::Joining,
    {
        if link != ConnectionState::Connected {
            return Err(JoinError::ConnectionLost);
        }
        if self.state == ChannelState::Joined || self.state == ChannelState::Joining {
            return Ok(false);
        }
        self.state = ChannelState::Joining;
        Ok(true)
    }

    /// Takes the outcome of the join in progress and answers whether the
    /// channel is now joined. With no join in progress the outcome is stale:
    /// nothing changes, and the answer is how the channel stands, `Ok` only
    /// if it is joined.
    pub fn join_settled(&mut self, outcome: JoinOutcome) -> (r: Result<(), JoinError>)
        requires
            old(self).wf(),
        ensures
            final(self).wf(),
            final(self).topic == old(self).topic,
            final(self).next_id == old(self).next_id,
            final(self).pending == old(self).pending,
            r is Ok <==> final(self).state == ChannelState::Joined,
            old(self).state != ChannelState::Joining ==> {
                &&& final(self).state == old(self).state
                &&& final(self).last_error == old(self).last_error
                &&& r == standing(old(self).state, old(self).last_error)
            },
            old(self).state == ChannelState::Joining ==> match outcome {
                JoinOutcome::Accepted => {
                    &&& final(self).state == ChannelState::Joined
                    &&& final(self).last_error == None::<JoinError>
                    &&& r == Ok::<(), JoinError>(())
                },
                JoinOutcome::Failed(e) => {
                    &&& final(self).state == ChannelState::Errored
                    &&& final(self).last_error == Some(e)
                    &&& r == Err::<(), JoinError>(e)
                },
            },
    {
        if self.state != ChannelState::Joining {
            if self.state == ChannelState::Joined {
                return Ok(());
            }
            return match self.last_error {
                Some(e) => Err(e),
                None => Err(JoinError::Rejected),
            };
        }
        match outcome {
            JoinOutcome::Accepted => {
                self.state = ChannelState::Joined;
                self.last_error = None;
                Ok(())
            },
            JoinOutcome::Failed(e) => {
                self.state = ChannelState::Errored;
                self.last_error = Some(e);
                Err(e)
            },
        }
    }

    /// Empties the table of outstanding calls and returns them, oldest
    /// first, each failed with `error`.
    fn drain_failed(&mut self, error: CallError) -> (failed: Vec<FailedCall>)
        ensures
            failed@ == failed_with(ids_of(old(self).pending@), error),
            final(self).pending@.len() == 0,
            final(self).topic == old(self).topic,
            final(self).next_id == old(self).next_id,
            final(self).state == old(self).state,
            final(self).last_error == old(self).last_error,
    {
        let mut failed: Vec<FailedCall> = Vec::new();
        let mut i: usize = 0;
        while i < self.pending.len()
            invariant
                i <= self.pending@.len(),
                *self == *old(self),
                failed@ == failed_with(ids_of(self.pending@.take(i as int)), error),
            decreases self.pending@.len() - i,
        {
            failed.push(FailedCall { id: self.pending[i].id, error });
            i = i + 1;
            assert(failed@ =~= failed_with(ids_of(self.pending@.take(i as int)), error));
        }
        assert(self.pending@.take(i as int) =~= self.pending@);
        self.pending = Vec::new();
        failed
    }

    /// Follows the link. When it comes back after a loss the channel joins
    /// again; when it goes, the channel is no longer joined and every
    /// outstanding call is lost.
    pub fn link_changed(&mut self, link: ConnectionState) -> (r: LinkReaction)
        requires
            old(self).wf(),
        ensures
            final(self).wf(),
            final(self).topic == old(self).topic,
            final(self).next_id == old(self).next_id,
            link == ConnectionState::Connected && old(self).state == ChannelState::Errored ==> {
                &&& r == LinkReaction::Rejoin
                &&& final(self).state == ChannelState::Joining
                &&& final(self).last_error == old(self).last_error
                &&& final(self).pending == old(self).pending
            },
            link != ConnectionState::Connected && (old(self).state == ChannelState::Joined
                || old(self).state == ChannelState::Joining) ==> {
                &&& r matches LinkReaction::Abandon(failed) && failed@ == failed_with(
                    ids_of(old(self).pending@),
                    CallError::ConnectionLost,
                )
                &&& final(self).state == ChannelState::Errored
                &&& final(self).last_error == Some(JoinError::ConnectionLost)
                &&& final(self).pending@.len() == 0
            },
            !(link == ConnectionState::Connected && old(self).state == ChannelState::Errored) && !(link
                != ConnectionState::Connected && (old(self).state == ChannelState::Joined
                || old(self).state == ChannelState::Joining)) ==> {
                &&& r == LinkReaction::Nothing
                &&& *final(self) == *old(self)
            },
    {
        if link == ConnectionState::Connected {
            if self.state == ChannelState::Errored {
                self.state = ChannelState::Joining;
                LinkReaction::Rejoin
            } else {
                LinkReaction::Nothing
            }
        } else if self.state == ChannelState::Joined || self.state == ChannelState::Joining {
            let failed = self.drain_failed(CallError::ConnectionLost);
            self.state = ChannelState::Errored;
            self.last_error = Some(JoinError::ConnectionLost);
            LinkReaction::Abandon(failed)
        } else {
            LinkReaction::Nothing
        }
    }

    /// Fire and forget: the message to hand to the transport, or `NotJoined`.
    /// Nothing is queued and nothing is retried.
    pub fn publish(&self, event: String, payload: Payload) -> (r: Result<OutboundMessage, NotJoined>)
        ensures
            self.state != ChannelState::Joined ==> r == Err::<OutboundMessage, NotJoined>(NotJoined),
            self.state == ChannelState::Joined ==> r is Ok && is_publication(
                r->Ok_0,
                self.topic,
                event@,
                payload,
            ),
    {
        if self.state != ChannelState::Joined {
            return Err(NotJoined);
        }
        Ok(
            OutboundMessage {
                topic: self.topic.clone(),
                event,
                payload,
                mode: DeliveryMode::FireAndForget,
                correlation: None,
            },
        )
    }

    /// Starts a call at the instant `now_ms`: hands out a fresh correlation
    /// id, notes the deadline and returns the request to send, or `NotJoined`.
    pub fn call(&mut self, event: String, payload: Payload, timeout_ms: u64, now_ms: u64) -> (r: Result<
        OutboundMessage,
        NotJoined,
    >)
        requires
            old(self).wf(),
            old(self).next_id < u64::MAX,
        ensures
            final(self).wf(),
            final(self).topic == old(self).topic,
            final(self).state == old(self).state,
            final(self).last_error == old(self).last_error,
            old(self).state != ChannelState::Joined ==> r == Err::<OutboundMessage, NotJoined>(NotJoined)
                && *final(self) == *old(self),
            old(self).state == ChannelState::Joined ==> {
                &&& r is Ok
                &&& is_request(r->Ok_0, old(self).topic, event@, payload, timeout_ms, old(self).next_id)
                &&& !old(self).awaits(old(self).next_id)
                &&& final(self).next_id == old(self).next_id + 1
                &&& final(self).pending@ == old(self).pending@.push(
                    PendingCall { id: old(self).next_id, deadline_ms: deadline(now_ms, timeout_ms) },
                )
            },
    {
        if self.state != ChannelState::Joined {
            return Err(NotJoined);
        }
        let id: u64 = self.next_id;
        let deadline_ms: u64 = if timeout_ms > u64::MAX - now_ms {
            u64::MAX
        } else {
            now_ms + timeout_ms
        };
        self.pending.push(PendingCall { id, deadline_ms });
        self.next_id = id + 1;
        Ok(
            OutboundMessage {
                topic: self.topic.clone(),
                event,
                payload,
                mode: DeliveryMode::RequestReply { timeout_ms },
                correlation: Some(id),
            },
        )
    }

    /// Takes a reply from the server. For an outstanding call it is the
    /// call's result, and the call is settled; a reply to anything else (a
    /// call that timed out, a second reply) is dropped.
    pub fn reply(&mut self, id: u64, accepted: bool, body: String) -> (r: Option<Result<String, CallError>>)
        requires
            old(self).wf(),
        ensures
            final(self).wf(),
            final(self).topic == old(self).topic,
            final(self).state == old(self).state,
            final(self).next_id == old(self).next_id,
            final(self).last_error == old(self).last_error,
            r is Some <==> old(self).awaits(id),
            r is Some ==> !final(self).awaits(id) && exists|i: int|
                0 <= i < old(self).pending@.len() && (#[trigger] old(self).pending@[i]).id == id
                    && final(self).pending@ == old(self).pending@.remove(i),
            r is Some ==> r->Some_0 == if accepted {
                Ok::<String, CallError>(body)
            } else {
                Err::<String, CallError>(CallError::Rejected)
            },
            r is None ==> final(self).pending@ == old(self).pending@,
    {
        let mut i: usize = 0;
        while i < self.pending.len()
            invariant
                i <= self.pending@.len(),
                *self == *old(self),
                self.wf(),
                forall|j: int| 0 <= j < i ==> (#[trigger] self.pending@[j]).id != id,
            decreases self.pending@.len() - i,
        {
            if self.pending[i].id == id {
                let _ = self.pending.remove(i);
                assert(!self.awaits(id)) by {
                    let p = old(self).pending@;
                    let q = self.pending@;
                    assert forall|k: int| 0 <= k < q.len() implies (#[trigger] q[k]).id != id by {
                        if k < i {
                            assert(q[k] == p[k]);
                        } else {
                            assert(q[k] == p[k + 1]);
                        }
                    }
                }
                assert(ids_rising(self.pending@, self.next_id)) by {
                    let p = old(self).pending@;
                    let q = self.pending@;
                    assert forall|k: int| 0 <= k < q.len() implies (#[trigger] q[k]).id < self.next_id by {
                        assert(q[k] == p[if k < i { k } else { k + 1 }]);
                    }
                    assert forall|a: int, b: int| 0 <= a < b < q.len() implies (#[trigger] q[a]).id < (
                    #[trigger] q[b]).id by {
                        assert(q[a] == p[if a < i { a } else { a + 1 }]);
                        assert(q[b] == p[if b < i { b } else { b + 1 }]);
                    }
                }
                return Some(if accepted { Ok(body) } else { Err(CallError::Rejected) });
            }
            i = i + 1;
        }
        None
    }

    /// Gives up, at the instant `now_ms`, every call whose deadline has come:
    /// each one returned has failed with `CallError::Timeout`. The others
    /// wait on.
    pub fn expire(&mut self, now_ms: u64) -> (failed: Vec<FailedCall>)
        requires
            old(self).wf(),
        ensures
            final(self).wf(),
            final(self).topic == old(self).topic,
            final(self).state == old(self).state,
            final(self).next_id == old(self).next_id,
            final(self).last_error == old(self).last_error,
            failed@ == failed_with(overdue(old(self).pending@, now_ms), CallError::Timeout),
            final(self).pending@ == outstanding(old(self).pending@, now_ms),
    {
        let mut failed: Vec<FailedCall> = Vec::new();
        let mut kept: Vec<PendingCall> = Vec::new();
        let mut i: usize = 0;
        while i < self.pending.len()
            invariant
                i <= self.pending@.len(),
                *self == *old(self),
                self.wf(),
                failed@ == failed_with(overdue(self.pending@.take(i as int), now_ms), CallError::Timeout),
                kept@ == outstanding(self.pending@.take(i as int), now_ms),
                forall|a: int, b: int| 0 <= a < b < kept@.len() ==> (#[trigger] kept@[a]).id < (
                #[trigger] kept@[b]).id,
                forall|a: int| 0 <= a < kept@.len() ==> (#[trigger] kept@[a]).id < self.next_id,
                forall|a: int| 0 <= a < kept@.len() && i < self.pending@.len() ==> (
                #[trigger] kept@[a]).id < self.pending@[i as int].id,
            decreases self.pending@.len() - i,
        {
            let c = self.pending[i];
            assert(self.pending@.take(i + 1).drop_last() =~= self.pending@.take(i as int));
            assert(self.pending@.take(i + 1).last() == c);
            if c.deadline_ms <= now_ms {
                failed.push(FailedCall { id: c.id, error: CallError::Timeout });
            } else {
                kept.push(c);
            }
            i = i + 1;
            assert(failed@ =~= failed_with(overdue(self.pending@.take(i as int), now_ms), CallError::Timeout));
        }
        assert(self.pending@.take(i as int) =~= self.pending@);
        self.pending = kept;
        failed
    }

    /// Leaves the topic. Local state is released whether or not the server
    /// acknowledges: the calls still outstanding are given up and returned,
    /// each failed with `CallError::ConnectionLost`.
    pub fn leave(&mut self) -> (failed: Vec<FailedCall>)
        requires
            old(self).wf(),
        ensures
            final(self).wf(),
            final(self).topic == old(self).topic,
            final(self).next_id == old(self).next_id,
            final(self).last_error == old(self).last_error,
            final(self).state == ChannelState::Left,
            final(self).pending@.len() == 0,
            failed@ == failed_with(ids_of(old(self).pending@), CallError::ConnectionLost),
    {
        let failed = self.drain_failed(CallError::ConnectionLost);
        self.state = ChannelState::Left;
        failed
    }
}

} // verus!
