//! The link's state machine: one physical link, attempts one at a time,
//! retries with backoff until shutdown.

use vstd::prelude::*;
use crate::backoff::delay;
use crate::backoff::delay_ms;
use crate::backoff::lemma_delay_bounded;

verus! {

#[derive(Clone, Copy, Debug, PartialEq, Eq, Structural)]
pub enum ConnectionState {
    Disconnected,
    Connecting,
    Connected,
    Failed,
}

#[derive(Clone, Copy, Debug, PartialEq, Eq, Structural)]
pub enum ConnectError {
    Unreachable,
    AuthRejected,
    Timeout,
}

/// What the transport, the timer or the host reports to the link.
#[derive(Clone, Copy, Debug, PartialEq, Eq, Structural)]
pub enum LinkEvent {
    /// The host asks for the link to be brought up.
    Open,
    /// The attempt in flight succeeded.
    Established,
    /// The attempt in flight failed.
    Refused(ConnectError),
    /// The open link went away.
    Lost,
    /// The backoff delay has elapsed.
    RetryDue,
    /// The host asks for the link to be closed for good.
    Shutdown,
}

/// What the caller must do after a step.
#[derive(Clone, Copy, Debug, PartialEq, Eq, Structural)]
pub enum LinkAction {
    /// Nothing.
    Ignore,
    /// Start one fresh connect attempt.
    Dial,
    /// Tell the dependent channels that the link is up.
    AnnounceUp,
    /// Wait `ms` milliseconds, then report `RetryDue`.
    RetryAfter { ms: u64 },
    /// Tell the dependent channels that the link is down, wait `ms`
    /// milliseconds, then report `RetryDue`.
    AnnounceDown { ms: u64 },
    /// Close whatever is open and stop.
    Close,
}

#[derive(Clone, Copy, Debug, PartialEq, Eq, Structural)]
pub struct Connection {
    pub state: ConnectionState,
    /// Retry delays taken since the link was last up: one for its loss and
    /// one for each attempt that failed since.
    pub failures: u32,
    /// Set once shutdown was requested; nothing is started after that.
    pub closing: bool,
    pub last_error: Option<ConnectError>,
}

pub open spec fn bump(failures: u32) -> u32 {
    if failures == u32::MAX {
        failures
    } else {
        (failures + 1) as u32
    }
}

/// The transition relation, as a function: the state after `event` and the
/// action it calls for. `entropy` picks the jittered delay.
pub open spec fn step_spec(c: Connection, event: LinkEvent, entropy: u64) -> (Connection, LinkAction) {
    if c.closing {
        (c, LinkAction::Ignore)
    } else {
        match event {
            LinkEvent::Shutdown => (
                Connection { state: ConnectionState::Disconnected, closing: true, ..c },
                LinkAction::Close,
            ),
            LinkEvent::Open => if c.state == ConnectionState::Disconnected {
                (Connection { state: ConnectionState::Connecting, ..c }, LinkAction::Dial)
            } else {
                (c, LinkAction::Ignore)
            },
            LinkEvent::RetryDue => if c.state == ConnectionState::Failed {
                (Connection { state: ConnectionState::Connecting, ..c }, LinkAction::Dial)
            } else {
                (c, LinkAction::Ignore)
            },
            LinkEvent::Established => if c.state == ConnectionState::Connecting {
                (
                    Connection { state: ConnectionState::Connected, failures: 0, last_error: None, ..c },
                    LinkAction::AnnounceUp,
                )
            } else {
                (c, LinkAction::Ignore)
            },
            LinkEvent::Refused(e) => if c.state == ConnectionState::Connecting {
                (
                    Connection {
                        state: ConnectionState::Failed,
                        failures: bump(c.failures),
                        last_error: Some(e),
                        ..c
                    },
                    LinkAction::RetryAfter { ms: delay_ms(c.failures as nat, entropy) as u64 },
                )
            } else {
                (c, LinkAction::Ignore)
            },
            LinkEvent::Lost => if c.state == ConnectionState::Connected {
                (
                    Connection { state: ConnectionState::Failed, failures: bump(c.failures), ..c },
                    LinkAction::AnnounceDown { ms: delay_ms(c.failures as nat, entropy) as u64 },
                )
            } else {
                (c, LinkAction::Ignore)
            },
        }
    }
}

/// The event that sets a link in motion towards being up: opening it,
/// retrying after a failure, or giving up a link that is to be replaced.
/// There is none while an attempt is in flight or after shutdown.
pub open spec fn restart_event_spec(c: Connection) -> Option<LinkEvent> {
    if c.closing {
        None
    } else {
        match c.state {
            ConnectionState::Disconnected => Some(LinkEvent::Open),
            ConnectionState::Failed => Some(LinkEvent::RetryDue),
            ConnectionState::Connected => Some(LinkEvent::Lost),
            ConnectionState::Connecting => None,
        }
    }
}

/// The state after a whole run of events, each with its entropy.
pub open spec fn run_spec(c: Connection, events: Seq<(LinkEvent, u64)>) -> Connection
    decreases events.len(),
{
    if events.len() == 0 {
        c
    } else {
        step_spec(run_spec(c, events.drop_last()), events.last().0, events.last().1).0
    }
}

/// Attempts are serialized: a new one starts only while none is in flight and
/// no link is open, and it is then the one in flight.
pub proof fn lemma_one_attempt_at_a_time(c: Connection, event: LinkEvent, entropy: u64)
    ensures
        step_spec(c, event, entropy).1 == LinkAction::Dial ==> {
            &&& c.state != ConnectionState::Connecting
            &&& c.state != ConnectionState::Connected
            &&& !c.closing
            &&& step_spec(c, event, entropy).0.state == ConnectionState::Connecting
        },
        step_spec(c, event, entropy).0.state == ConnectionState::Connected ==> {
            ||| c.state == ConnectionState::Connected
            ||| (c.state == ConnectionState::Connecting && event == LinkEvent::Established)
        },
{
}

/// Every retry delay is within the cap of thirty seconds.
pub proof fn lemma_retry_within_cap(c: Connection, event: LinkEvent, entropy: u64)
    ensures
        match step_spec(c, event, entropy).1 {
            LinkAction::RetryAfter { ms } => ms <= 30000,
            LinkAction::AnnounceDown { ms } => ms <= 30000,
            _ => true,
        },
{
    lemma_delay_bounded(c.failures as nat, entropy);
}

/// After shutdown nothing moves any more, whatever is reported and however often.
pub proof fn lemma_shutdown_is_final(c: Connection, events: Seq<(LinkEvent, u64)>)
    requires
        c.closing,
    ensures
        run_spec(c, events) == c,
    decreases events.len(),
{
    if events.len() > 0 {
        lemma_shutdown_is_final(c, events.drop_last());
    }
}

impl Connection {
    /// A link that was never opened.
    pub fn new() -> (c: Connection)
        ensures
            c == (Connection {
                state: ConnectionState::Disconnected,
                failures: 0,
                closing: false,
                last_error: None,
            }),
    {
        Connection {
            state: ConnectionState::Disconnected,
            failures: 0,
            closing: false,
            last_error: None,
        }
    }

    pub fn state(&self) -> (s: ConnectionState)
        ensures
            s == self.state,
    {
        self.state
    }

    pub fn is_connected(&self) -> (b: bool)
        ensures
            b == (self.state == ConnectionState::Connected),
    {
        self.state == ConnectionState::Connected
    }

    pub fn is_closing(&self) -> (b: bool)
        ensures
            b == self.closing,
    {
        self.closing
    }

    /// The event to report in order to bring the link up, anew if it is up:
    /// one that `step` does not ignore.
    pub fn restart_event(&self) -> (r: Option<LinkEvent>)
        ensures
            r == restart_event_spec(*self),
            r is None <==> self.closing || self.state == ConnectionState::Connecting,
            forall|entropy: u64|
                r is Some ==> #[trigger] step_spec(*self, r->Some_0, entropy).1 != LinkAction::Ignore,
    {
        if self.closing {
            return None;
        }
        match self.state {
            ConnectionState::Disconnected => Some(LinkEvent::Open),
            ConnectionState::Failed => Some(LinkEvent::RetryDue),
            ConnectionState::Connected => Some(LinkEvent::Lost),
            ConnectionState::Connecting => None,
        }
    }

    /// Takes one event and says what to do next.
    pub fn step(&mut self, event: LinkEvent, entropy: u64) -> (action: LinkAction)
        ensures
            (*final(self), action) == step_spec(*old(self), event, entropy),
    {
        if self.closing {
            return LinkAction::Ignore;
        }
        proof {
            lemma_delay_bounded(self.failures as nat, entropy);
        }
        match event {
            LinkEvent::Shutdown => {
                self.state = ConnectionState::Disconnected;
                self.closing = true;
                LinkAction::Close
            },
            LinkEvent::Open => {
                if self.state == ConnectionState::Disconnected {
                    self.state = ConnectionState::Connecting;
                    LinkAction::Dial
                } else {
                    LinkAction::Ignore
                }
            },
            LinkEvent::RetryDue => {
                if self.state == ConnectionState::Failed {
                    self.state = ConnectionState::Connecting;
                    LinkAction::Dial
                } else {
                    LinkAction::Ignore
                }
            },
            LinkEvent::Established => {
                if self.state == ConnectionState::Connecting {
                    self.state = ConnectionState::Connected;
                    self.failures = 0;
                    self.last_error = None;
                    LinkAction::AnnounceUp
                } else {
                    LinkAction::Ignore
                }
            },
            LinkEvent::Refused(e) => {
                if self.state == ConnectionState::Connecting {
                    let ms: u64 = delay(self.failures, entropy);
                    self.state = ConnectionState::Failed;
                    self.failures = if self.failures == u32::MAX {
                        self.failures
                    } else {
                        self.failures + 1
                    };
                    self.last_error = Some(e);
                    LinkAction::RetryAfter { ms }
                } else {
                    LinkAction::Ignore
                }
            },
            LinkEvent::Lost => {
                if self.state == ConnectionState::Connected {
                    let ms: u64 = delay(self.failures, entropy);
                    self.state = ConnectionState::Failed;
                    self.failures = if self.failures == u32::MAX {
                        self.failures
                    } else {
                        self.failures + 1
                    };
                    LinkAction::AnnounceDown { ms }
                } else {
                    LinkAction::Ignore
                }
            },
        }
    }
}

} // verus!
