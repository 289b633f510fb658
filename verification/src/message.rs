//! The values that travel: what local sources observe and what goes out on
//! the uplink.

use vstd::prelude::*;

verus! {

/// What a local source observed.
#[derive(Clone, Debug, PartialEq, Eq)]
pub enum LocalPayload {
    /// A line appended to a watched file.
    TailLine { path: String, text: String },
    /// One reachability sample of an address.
    ProbeResult { address: String, reachable: bool, latency_ms: u64 },
}

/// One observation of one local source.
#[derive(Clone, Debug, PartialEq, Eq)]
pub struct LocalEvent {
    pub source: u64,
    pub timestamp: u64,
    pub payload: LocalPayload,
}

/// The structured body of an outbound message.
#[derive(Clone, Debug, PartialEq, Eq)]
pub enum Payload {
    /// The agent identifying itself to the server.
    Identity { hostname: String },
    /// A local observation passed on as it is.
    Local(LocalEvent),
}

#[derive(Clone, Copy, Debug, PartialEq, Eq, Structural)]
pub enum DeliveryMode {
    FireAndForget,
    RequestReply { timeout_ms: u64 },
}

/// A message ready for the transport.
#[derive(Clone, Debug, PartialEq, Eq)]
pub struct OutboundMessage {
    pub topic: String,
    pub event: String,
    pub payload: Payload,
    pub mode: DeliveryMode,
    /// Present exactly on request/reply messages.
    pub correlation: Option<u64>,
}

/// The event name under which a local observation is published.
pub open spec fn event_name(payload: LocalPayload) -> Seq<char> {
    match payload {
        LocalPayload::TailLine { .. } => "tail_line"@,
        LocalPayload::ProbeResult { .. } => "probe_result"@,
    }
}

/// `msg` is the fire-and-forget publication of `event` with `payload` on `topic`.
pub open spec fn is_publication(
    msg: OutboundMessage,
    topic: String,
    event: Seq<char>,
    payload: Payload,
) -> bool {
    &&& msg.topic == topic
    &&& msg.event@ == event
    &&& msg.payload == payload
    &&& msg.mode == DeliveryMode::FireAndForget
    &&& msg.correlation == None::<u64>
}

/// `msg` is the request `event` with `payload` on `topic`, to be answered
/// under `id` within `timeout_ms`.
pub open spec fn is_request(
    msg: OutboundMessage,
    topic: String,
    event: Seq<char>,
    payload: Payload,
    timeout_ms: u64,
    id: u64,
) -> bool {
    &&& msg.topic == topic
    &&& msg.event@ == event
    &&& msg.payload == payload
    &&& msg.mode == DeliveryMode::RequestReply { timeout_ms }
    &&& msg.correlation == Some(id)
}

/// `i` is the first place of `path` among `paths`.
pub open spec fn first_place(paths: Seq<String>, path: Seq<char>, i: int) -> bool {
    &&& 0 <= i < paths.len()
    &&& paths[i]@ == path
    &&& forall|j: int| 0 <= j < i ==> (#[trigger] paths[j])@ != path
}

/// The source of a line read from `path`: the place of `path` among the
/// watched `paths`, or `None` if it is not among them.
pub fn source_of(paths: &Vec<String>, path: &String) -> (r: Option<usize>)
    ensures
        match r {
            Some(i) => first_place(paths@, path@, i as int),
            None => forall|j: int| 0 <= j < paths@.len() ==> (#[trigger] paths@[j])@ != path@,
        },
{
    let mut i: usize = 0;
    while i < paths.len()
        invariant
            i <= paths@.len(),
            forall|j: int| 0 <= j < i ==> (#[trigger] paths@[j])@ != path@,
        decreases paths@.len() - i,
    {
        if paths[i] == *path {
            return Some(i);
        }
        i = i + 1;
    }
    None
}

impl LocalEvent {
    /// A line that the file-tail source `source` read from `path`.
    pub fn tail_line(source: u64, timestamp: u64, path: String, text: String) -> (e: LocalEvent)
        ensures
            e == (LocalEvent { source, timestamp, payload: LocalPayload::TailLine { path, text } }),
    {
        LocalEvent { source, timestamp, payload: LocalPayload::TailLine { path, text } }
    }

    /// A sample that the probe source `source` took of `address`.
    pub fn probe_result(source: u64, timestamp: u64, address: String, reachable: bool, latency_ms: u64) -> (e:
        LocalEvent)
        ensures
            e == (LocalEvent {
                source,
                timestamp,
                payload: LocalPayload::ProbeResult { address, reachable, latency_ms },
            }),
    {
        LocalEvent { source, timestamp, payload: LocalPayload::ProbeResult { address, reachable, latency_ms } }
    }
}

impl LocalEvent {
    /// An equal event of its own.
    pub fn duplicate(&self) -> (r: LocalEvent)
        ensures
            r == *self,
    {
        let payload = match &self.payload {
            LocalPayload::TailLine { path, text } => LocalPayload::TailLine {
                path: path.clone(),
                text: text.clone(),
            },
            LocalPayload::ProbeResult { address, reachable, latency_ms } => LocalPayload::ProbeResult {
                address: address.clone(),
                reachable: *reachable,
                latency_ms: *latency_ms,
            },
        };
        LocalEvent { source: self.source, timestamp: self.timestamp, payload }
    }
}

impl LocalPayload {
    /// The event name under which this observation is published.
    pub fn event_name(&self) -> (name: String)
        ensures
            name@ == event_name(*self),
    {
        match self {
            LocalPayload::TailLine { .. } => "tail_line".to_owned(),
            LocalPayload::ProbeResult { .. } => "probe_result".to_owned(),
        }
    }
}

} // verus!
