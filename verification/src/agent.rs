//! The agent's lifecycle: connect, join, one handshake to confirm that the
//! server answers, then steady service until shutdown.

use vstd::prelude::*;
use crate::channel::CallError;
use crate::channel::ChannelState;
use crate::channel::ControlChannel;
use crate::channel::JoinError;
use crate::channel::NotJoined;
use crate::channel::PendingCall;
use crate::channel::deadline;
use crate::connection::ConnectError;
use crate::message::OutboundMessage;
use crate::message::Payload;
use crate::message::is_request;

verus! {

/// Time allowed for one connect attempt, in milliseconds.
pub const CONNECT_TIMEOUT_MS: u64 = 10000;

/// Time allowed for the server to accept a join, in milliseconds.
pub const JOIN_TIMEOUT_MS: u64 = 15000;

/// Time allowed for the reply to the handshake, in milliseconds.
pub const HANDSHAKE_TIMEOUT_MS: u64 = 5000;

#[derive(Clone, Copy, Debug, PartialEq, Eq, Structural)]
pub enum Phase {
    Created,
    /// Waiting for the link, at startup or after a loss.
    Connecting,
    /// Waiting for the topic to be joined.
    Joining,
    /// Waiting for the reply to the startup handshake.
    Handshaking,
    /// Steady state: events are dispatched and local sources are served.
    Serving,
    /// Shutdown was requested: calls in flight may still finish.
    Draining,
    Stopped,
    /// The startup handshake failed.
    Fatal,
}

#[derive(Clone, Copy, Debug, PartialEq, Eq, Structural)]
pub enum AgentEvent {
    Start,
    LinkUp,
    LinkFailed(ConnectError),
    LinkDown,
    Joined,
    JoinFailed(JoinError),
    HandshakeReplied,
    HandshakeFailed(CallError),
    ShutdownRequested,
    /// No call is in flight any more.
    Drained,
}

#[derive(Clone, Copy, Debug, PartialEq, Eq, Structural)]
pub enum AgentAction {
    Nothing,
    /// Bring the link up.
    Connect { timeout_ms: u64 },
    /// Join the control topic.
    Join { timeout_ms: u64 },
    /// Send the identification call and wait for its reply.
    Handshake { timeout_ms: u64 },
    /// Start, or take up again, dispatching and the local sources.
    Serve,
    /// Drop the link and bring it up again; the topic is joined anew after.
    Reconnect,
    /// Take no more local events and let the calls in flight finish.
    Drain,
    /// Leave the channel, close the connection and return.
    LeaveAndClose,
    /// Give up with an explicit error: the handshake failed for this reason.
    Abort(CallError),
}

#[derive(Clone, Copy, Debug, PartialEq, Eq, Structural)]
pub struct Agent {
    pub phase: Phase,
    /// Whether the startup handshake was answered.
    pub confirmed: bool,
}

/// Whether nothing can follow `phase`.
pub open spec fn is_terminal(phase: Phase) -> bool {
    phase == Phase::Stopped || phase == Phase::Fatal
}

/// The lifecycle as a function: the agent after `event` and what to do.
pub open spec fn step_spec(a: Agent, event: AgentEvent) -> (Agent, AgentAction) {
    if is_terminal(a.phase) {
        (a, AgentAction::Nothing)
    } else if a.phase == Phase::Draining {
        if event == AgentEvent::Drained {
            (Agent { phase: Phase::Stopped, ..a }, AgentAction::LeaveAndClose)
        } else {
            (a, AgentAction::Nothing)
        }
    } else {
        match (a.phase, event) {
            (_, AgentEvent::ShutdownRequested) => (Agent { phase: Phase::Draining, ..a }, AgentAction::Drain),
            (Phase::Created, AgentEvent::Start) => (
                Agent { phase: Phase::Connecting, ..a },
                AgentAction::Connect { timeout_ms: CONNECT_TIMEOUT_MS },
            ),
            (Phase::Connecting, AgentEvent::LinkUp) => (
                Agent { phase: Phase::Joining, ..a },
                AgentAction::Join { timeout_ms: JOIN_TIMEOUT_MS },
            ),
            (Phase::Joining, AgentEvent::Joined) => if a.confirmed {
                (Agent { phase: Phase::Serving, ..a }, AgentAction::Serve)
            } else {
                (
                    Agent { phase: Phase::Handshaking, ..a },
                    AgentAction::Handshake { timeout_ms: HANDSHAKE_TIMEOUT_MS },
                )
            },
            (Phase::Handshaking, AgentEvent::HandshakeReplied) => (
                Agent { phase: Phase::Serving, confirmed: true },
                AgentAction::Serve,
            ),
            (Phase::Handshaking, AgentEvent::HandshakeFailed(e)) => (
                Agent { phase: Phase::Fatal, ..a },
                AgentAction::Abort(e),
            ),
            (Phase::Handshaking, AgentEvent::LinkDown) => (
                Agent { phase: Phase::Fatal, ..a },
                AgentAction::Abort(CallError::ConnectionLost),
            ),
            (Phase::Joining, AgentEvent::LinkDown) => (Agent { phase: Phase::Connecting, ..a }, AgentAction::Reconnect),
            (Phase::Joining, AgentEvent::JoinFailed(_)) => (
                Agent { phase: Phase::Connecting, ..a },
                AgentAction::Reconnect,
            ),
            (Phase::Serving, AgentEvent::LinkDown) => (Agent { phase: Phase::Connecting, ..a }, AgentAction::Reconnect),
            _ => (a, AgentAction::Nothing),
        }
    }
}

/// The agent after a whole run of events.
pub open spec fn run_spec(a: Agent, events: Seq<AgentEvent>) -> Agent
    decreases events.len(),
{
    if events.len() == 0 {
        a
    } else {
        step_spec(run_spec(a, events.drop_last()), events.last()).0
    }
}

/// The agent at startup.
pub open spec fn fresh() -> Agent {
    Agent { phase: Phase::Created, confirmed: false }
}

/// Whatever happens, the agent serves only after the handshake was answered,
/// and it is told to serve only then.
pub proof fn lemma_service_needs_handshake(events: Seq<AgentEvent>)
    ensures
        run_spec(fresh(), events).phase == Phase::Serving ==> run_spec(fresh(), events).confirmed,
        events.len() > 0 && step_spec(run_spec(fresh(), events.drop_last()), events.last()).1
            == AgentAction::Serve ==> run_spec(fresh(), events).confirmed,
    decreases events.len(),
{
    if events.len() > 0 {
        lemma_service_needs_handshake(events.drop_last());
    }
}

/// Only a failed handshake is fatal: every other fault leaves the agent
/// running, and a failed handshake always ends it with an explicit error.
/// A lost link or a failed join is answered by reconnecting.
pub proof fn lemma_only_handshake_is_fatal(a: Agent, event: AgentEvent)
    ensures
        step_spec(a, event).0.phase == Phase::Fatal && a.phase != Phase::Fatal ==> a.phase
            == Phase::Handshaking && step_spec(a, event).1 is Abort,
        a.phase == Phase::Handshaking ==> (event matches AgentEvent::HandshakeFailed(e) ==> step_spec(
            a,
            event,
        ) == (Agent { phase: Phase::Fatal, ..a }, AgentAction::Abort(e))),
        step_spec(a, event).1 is Abort ==> step_spec(a, event).0.phase == Phase::Fatal,
        step_spec(a, event).1 == AgentAction::Reconnect ==> step_spec(a, event).0.phase == Phase::Connecting
            && (event == AgentEvent::LinkDown || event is JoinFailed),
{
}

/// Once stopped or failed the agent starts nothing more.
pub proof fn lemma_terminal_is_final(a: Agent, events: Seq<AgentEvent>)
    requires
        is_terminal(a.phase),
    ensures
        run_spec(a, events) == a,
    decreases events.len(),
{
    if events.len() > 0 {
        lemma_terminal_is_final(a, events.drop_last());
    }
}

/// After a shutdown request nothing is started but the final leave and close.
pub proof fn lemma_shutdown_starts_nothing(a: Agent, event: AgentEvent)
    requires
        a.phase == Phase::Draining,
    ensures
        step_spec(a, event).1 == AgentAction::Nothing || step_spec(a, event).1 == AgentAction::LeaveAndClose,
        step_spec(a, event).0.phase == Phase::Draining || step_spec(a, event).0.phase == Phase::Stopped,
{
}

impl Agent {
    /// The agent at startup.
    pub fn new() -> (a: Agent)
        ensures
            a == fresh(),
    {
        Agent { phase: Phase::Created, confirmed: false }
    }

    pub fn phase(&self) -> (p: Phase)
        ensures
            p == self.phase,
    {
        self.phase
    }

    /// Whether local events are taken: from the first service on, through
    /// outages, until shutdown is requested.
    pub fn accepts_local_events(&self) -> (b: bool)
        ensures
            b == (self.confirmed && (self.phase == Phase::Serving || self.phase == Phase::Connecting
                || self.phase == Phase::Joining)),
    {
        self.confirmed && (self.phase == Phase::Serving || self.phase == Phase::Connecting || self.phase
            == Phase::Joining)
    }

    /// Takes one event and says what to do next.
    pub fn step(&mut self, event: AgentEvent) -> (action: AgentAction)
        ensures
            (*final(self), action) == step_spec(*old(self), event),
    {
        match self.phase {
            Phase::Stopped => {
                return AgentAction::Nothing;
            },
            Phase::Fatal => {
                return AgentAction::Nothing;
            },
            Phase::Draining => {
                match event {
                    AgentEvent::Drained => {
                        self.phase = Phase::Stopped;
                        return AgentAction::LeaveAndClose;
                    },
                    _ => {
                        return AgentAction::Nothing;
                    },
                }
            },
            _ => {},
        }
        match event {
            AgentEvent::ShutdownRequested => {
                self.phase = Phase::Draining;
                AgentAction::Drain
            },
            AgentEvent::Start => {
                if self.phase == Phase::Created {
                    self.phase = Phase::Connecting;
                    AgentAction::Connect { timeout_ms: CONNECT_TIMEOUT_MS }
                } else {
                    AgentAction::Nothing
                }
            },
            AgentEvent::LinkUp => {
                if self.phase == Phase::Connecting {
                    self.phase = Phase::Joining;
                    AgentAction::Join { timeout_ms: JOIN_TIMEOUT_MS }
                } else {
                    AgentAction::Nothing
                }
            },
            AgentEvent::Joined => {
                if self.phase != Phase::Joining {
                    AgentAction::Nothing
                } else if self.confirmed {
                    self.phase = Phase::Serving;
                    AgentAction::Serve
                } else {
                    self.phase = Phase::Handshaking;
                    AgentAction::Handshake { timeout_ms: HANDSHAKE_TIMEOUT_MS }
                }
            },
            AgentEvent::HandshakeReplied => {
                if self.phase == Phase::Handshaking {
                    self.phase = Phase::Serving;
                    self.confirmed = true;
                    AgentAction::Serve
                } else {
                    AgentAction::Nothing
                }
            },
            AgentEvent::HandshakeFailed(e) => {
                if self.phase == Phase::Handshaking {
                    self.phase = Phase::Fatal;
                    AgentAction::Abort(e)
                } else {
                    AgentAction::Nothing
                }
            },
            AgentEvent::LinkDown => {
                if self.phase == Phase::Handshaking {
                    self.phase = Phase::Fatal;
                    AgentAction::Abort(CallError::ConnectionLost)
                } else if self.phase == Phase::Joining || self.phase == Phase::Serving {
                    self.phase = Phase::Connecting;
                    AgentAction::Reconnect
                } else {
                    AgentAction::Nothing
                }
            },
            AgentEvent::JoinFailed(_) => {
                if self.phase == Phase::Joining {
                    self.phase = Phase::Connecting;
                    AgentAction::Reconnect
                } else {
                    AgentAction::Nothing
                }
            },
            AgentEvent::LinkFailed(_) => AgentAction::Nothing,
            AgentEvent::Drained => AgentAction::Nothing,
        }
    }
}

/// The startup handshake: a `ping` call that carries the device's hostname,
/// to be answered within the handshake timeout.
pub fn handshake(channel: &mut ControlChannel, hostname: String, now_ms: u64) -> (r: Result<
    OutboundMessage,
    NotJoined,
>)
    requires
        old(channel).wf(),
        old(channel).next_id < u64::MAX,
    ensures
        final(channel).wf(),
        final(channel).topic == old(channel).topic,
        final(channel).state == old(channel).state,
        old(channel).state != ChannelState::Joined ==> r == Err::<OutboundMessage, NotJoined>(NotJoined)
            && *final(channel) == *old(channel),
        old(channel).state == ChannelState::Joined ==> {
            &&& r is Ok
            &&& is_request(
                r->Ok_0,
                old(channel).topic,
                "ping"@,
                Payload::Identity { hostname },
                HANDSHAKE_TIMEOUT_MS,
                old(channel).next_id,
            )
            &&& final(channel).next_id == old(channel).next_id + 1
            &&& final(channel).pending@ == old(channel).pending@.push(
                PendingCall { id: old(channel).next_id, deadline_ms: deadline(now_ms, HANDSHAKE_TIMEOUT_MS) },
            )
        },
{
    channel.call("ping".to_owned(), Payload::Identity { hostname }, HANDSHAKE_TIMEOUT_MS, now_ms)
}

} // verus!
