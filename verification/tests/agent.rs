use drone::agent::{
    handshake, Agent, AgentAction, AgentEvent, Phase, CONNECT_TIMEOUT_MS, HANDSHAKE_TIMEOUT_MS, JOIN_TIMEOUT_MS,
};
use drone::channel::{CallError, ControlChannel, FailedCall, JoinError, JoinOutcome, NotJoined};
use drone::config::{
    endpoint, endpoint_from, identity, identity_from, ConfigError, CONTROL_TOPIC, MAX_ENDPOINT_BYTES, SECRET_PARAM,
};
use drone::connection::{ConnectError, ConnectionState};
use drone::message::{DeliveryMode, OutboundMessage, Payload};

fn serving() -> Agent {
    let mut a = Agent::new();
    a.step(AgentEvent::Start);
    a.step(AgentEvent::LinkUp);
    a.step(AgentEvent::Joined);
    a.step(AgentEvent::HandshakeReplied);
    a
}

#[test]
fn timeouts_are_ten_fifteen_and_five_seconds() {
    assert_eq!(CONNECT_TIMEOUT_MS, 10000);
    assert_eq!(JOIN_TIMEOUT_MS, 15000);
    assert_eq!(HANDSHAKE_TIMEOUT_MS, 5000);
    assert_eq!(CONTROL_TOPIC, "drone:cnc");
    assert_eq!(SECRET_PARAM, "shared_secret");
}

#[test]
fn startup_joins_then_pings_then_serves() {
    let mut a = Agent::new();
    assert_eq!(a.phase(), Phase::Created);
    assert!(!a.accepts_local_events());
    assert_eq!(a.step(AgentEvent::Start), AgentAction::Connect { timeout_ms: 10000 });
    assert_eq!(a.phase(), Phase::Connecting);
    assert_eq!(a.step(AgentEvent::LinkUp), AgentAction::Join { timeout_ms: 15000 });
    assert_eq!(a.phase(), Phase::Joining);
    assert_eq!(a.step(AgentEvent::Joined), AgentAction::Handshake { timeout_ms: 5000 });
    assert_eq!(a.phase(), Phase::Handshaking);
    assert!(!a.accepts_local_events());

    let mut c = ControlChannel::new(CONTROL_TOPIC.to_string());
    c.begin_join(ConnectionState::Connected).unwrap();
    c.join_settled(JoinOutcome::Accepted).unwrap();
    let ping = handshake(&mut c, "agent-7".to_string(), 1000).unwrap();
    assert_eq!(
        ping,
        OutboundMessage {
            topic: "drone:cnc".to_string(),
            event: "ping".to_string(),
            payload: Payload::Identity { hostname: "agent-7".to_string() },
            mode: DeliveryMode::RequestReply { timeout_ms: 5000 },
            correlation: Some(0),
        }
    );
    assert_eq!(c.expire(5999), Vec::<FailedCall>::new());
    assert_eq!(c.reply(0, true, "pong".to_string()), Some(Ok("pong".to_string())));

    assert_eq!(a.step(AgentEvent::HandshakeReplied), AgentAction::Serve);
    assert_eq!(a.phase(), Phase::Serving);
    assert!(a.accepts_local_events());
}

#[test]
fn handshake_needs_a_joined_channel() {
    let mut c = ControlChannel::new(CONTROL_TOPIC.to_string());
    assert_eq!(handshake(&mut c, "agent-7".to_string(), 0), Err(NotJoined));
    assert_eq!(c.outstanding_calls(), 0);
}

#[test]
fn failed_handshake_is_fatal() {
    for reason in [CallError::Timeout, CallError::ConnectionLost, CallError::Rejected] {
        let mut a = Agent::new();
        a.step(AgentEvent::Start);
        a.step(AgentEvent::LinkUp);
        a.step(AgentEvent::Joined);
        assert_eq!(a.step(AgentEvent::HandshakeFailed(reason)), AgentAction::Abort(reason));
        assert_eq!(a.phase(), Phase::Fatal);
        assert_eq!(a.step(AgentEvent::HandshakeReplied), AgentAction::Nothing);
        assert_eq!(a.step(AgentEvent::LinkUp), AgentAction::Nothing);
        assert_eq!(a.step(AgentEvent::ShutdownRequested), AgentAction::Nothing);
        assert_eq!(a.phase(), Phase::Fatal);
        assert!(!a.accepts_local_events());
    }
}

#[test]
fn link_loss_during_handshake_is_fatal() {
    let mut a = Agent::new();
    a.step(AgentEvent::Start);
    a.step(AgentEvent::LinkUp);
    a.step(AgentEvent::Joined);
    assert_eq!(a.step(AgentEvent::LinkDown), AgentAction::Abort(CallError::ConnectionLost));
    assert_eq!(a.phase(), Phase::Fatal);
}

#[test]
fn unreachable_server_never_leads_to_service() {
    let mut a = Agent::new();
    a.step(AgentEvent::Start);
    for _ in 0..5 {
        assert_eq!(a.step(AgentEvent::LinkFailed(ConnectError::Unreachable)), AgentAction::Nothing);
        assert_eq!(a.phase(), Phase::Connecting);
        assert!(!a.accepts_local_events());
    }
    assert_eq!(a.step(AgentEvent::Joined), AgentAction::Nothing);
    assert_eq!(a.step(AgentEvent::HandshakeReplied), AgentAction::Nothing);
    assert_eq!(a.phase(), Phase::Connecting);
}

#[test]
fn outage_after_startup_is_recovered_without_a_second_handshake() {
    let mut a = serving();
    assert_eq!(a.step(AgentEvent::LinkDown), AgentAction::Reconnect);
    assert_eq!(a.phase(), Phase::Connecting);
    assert!(a.accepts_local_events());
    assert_eq!(a.step(AgentEvent::LinkFailed(ConnectError::Timeout)), AgentAction::Nothing);
    assert_eq!(a.step(AgentEvent::LinkUp), AgentAction::Join { timeout_ms: 15000 });
    assert_eq!(a.step(AgentEvent::JoinFailed(JoinError::Timeout)), AgentAction::Reconnect);
    assert_eq!(a.phase(), Phase::Connecting);
    assert_eq!(a.step(AgentEvent::LinkUp), AgentAction::Join { timeout_ms: 15000 });
    assert_eq!(a.step(AgentEvent::LinkDown), AgentAction::Reconnect);
    assert_eq!(a.step(AgentEvent::LinkUp), AgentAction::Join { timeout_ms: 15000 });
    assert_eq!(a.step(AgentEvent::Joined), AgentAction::Serve);
    assert_eq!(a.phase(), Phase::Serving);
}

#[test]
fn shutdown_drains_then_leaves_and_closes() {
    let mut a = serving();
    assert_eq!(a.step(AgentEvent::ShutdownRequested), AgentAction::Drain);
    assert_eq!(a.phase(), Phase::Draining);
    assert!(!a.accepts_local_events());
    assert_eq!(a.step(AgentEvent::LinkDown), AgentAction::Nothing);
    assert_eq!(a.step(AgentEvent::LinkUp), AgentAction::Nothing);
    assert_eq!(a.step(AgentEvent::ShutdownRequested), AgentAction::Nothing);
    assert_eq!(a.step(AgentEvent::Drained), AgentAction::LeaveAndClose);
    assert_eq!(a.phase(), Phase::Stopped);
    assert_eq!(a.step(AgentEvent::Start), AgentAction::Nothing);
    assert_eq!(a.phase(), Phase::Stopped);
}

#[test]
fn failed_join_at_startup_is_retried_not_fatal() {
    let mut a = Agent::new();
    a.step(AgentEvent::Start);
    a.step(AgentEvent::LinkUp);
    for reason in [JoinError::Timeout, JoinError::Rejected, JoinError::ConnectionLost] {
        assert_eq!(a.step(AgentEvent::JoinFailed(reason)), AgentAction::Reconnect);
        assert_eq!(a.phase(), Phase::Connecting);
        assert!(!a.accepts_local_events());
        assert_eq!(a.step(AgentEvent::LinkUp), AgentAction::Join { timeout_ms: 15000 });
    }
    assert_eq!(a.step(AgentEvent::Joined), AgentAction::Handshake { timeout_ms: 5000 });
}

#[test]
fn shutdown_before_service() {
    let mut a = Agent::new();
    assert_eq!(a.step(AgentEvent::ShutdownRequested), AgentAction::Drain);
    assert_eq!(a.step(AgentEvent::Drained), AgentAction::LeaveAndClose);
    assert_eq!(a.phase(), Phase::Stopped);
}

#[test]
fn out_of_turn_events_do_nothing() {
    let mut a = Agent::new();
    assert_eq!(a.step(AgentEvent::LinkUp), AgentAction::Nothing);
    assert_eq!(a.step(AgentEvent::Joined), AgentAction::Nothing);
    assert_eq!(a.step(AgentEvent::Drained), AgentAction::Nothing);
    assert_eq!(a, Agent::new());
    let mut b = serving();
    assert_eq!(b.step(AgentEvent::Start), AgentAction::Nothing);
    assert_eq!(b.step(AgentEvent::HandshakeFailed(CallError::Timeout)), AgentAction::Nothing);
    assert_eq!(b.phase(), Phase::Serving);
}

#[test]
fn endpoint_carries_the_secret() {
    assert_eq!(
        endpoint("ws://127.0.0.1:11899/socket/websocket", "s3cret"),
        Ok("ws://127.0.0.1:11899/socket/websocket?shared_secret=s3cret".to_string())
    );
    assert_eq!(
        endpoint("https://example.net?dont=clobberme", "a b"),
        Ok("https://example.net/?dont=clobberme&shared_secret=a+b".to_string())
    );
}

#[test]
fn endpoint_rejects_what_is_no_url() {
    assert_eq!(endpoint("not a url", "s3cret"), Err(ConfigError::BadServerUrl));
    assert_eq!(endpoint("", "s3cret"), Err(ConfigError::BadServerUrl));
    assert_eq!(endpoint("/socket/websocket", "s3cret"), Err(ConfigError::BadServerUrl));
}

#[test]
fn endpoint_takes_texts_up_to_the_bound() {
    assert_eq!(MAX_ENDPOINT_BYTES, 67108864);
    let server = "ws://h/#f";
    let room = MAX_ENDPOINT_BYTES - server.len() - SECRET_PARAM.len();
    let most = "a".repeat(room);
    let r = endpoint(server, &most).unwrap();
    assert_eq!(r.len(), server.len() + 1 + SECRET_PARAM.len() + 1 + room);
    assert!(r.starts_with("ws://h/?shared_secret=aaaa"));
    assert!(r.ends_with("aaaa#f"));
}

#[test]
fn endpoint_rejects_texts_that_are_too_long() {
    let server = "ws://h/#f";
    let more = "a".repeat(MAX_ENDPOINT_BYTES - server.len() - SECRET_PARAM.len() + 1);
    assert_eq!(endpoint(server, &more), Err(ConfigError::EndpointTooLong));
    assert_eq!(endpoint("not a url", &more), Err(ConfigError::EndpointTooLong));
    let long_server = "a".repeat(MAX_ENDPOINT_BYTES - SECRET_PARAM.len() + 1);
    assert_eq!(endpoint(&long_server, ""), Err(ConfigError::EndpointTooLong));
    assert_eq!(endpoint(&long_server[1..], ""), Err(ConfigError::BadServerUrl));
}

#[test]
fn endpoint_from_maps_the_parse_error() {
    let e = url::Url::parse("no scheme").unwrap_err();
    assert_eq!(endpoint_from(Err(e)), Err(ConfigError::BadServerUrl));
    assert_eq!(endpoint_from(Ok("ws://h/".to_string())), Ok("ws://h/".to_string()));
}

#[test]
fn identity_prefers_what_is_given() {
    assert_eq!(identity(Some("agent-7".to_string())), Ok("agent-7".to_string()));
    assert_eq!(identity_from(Some("a".to_string()), Ok("b".to_string())), Ok("a".to_string()));
    assert_eq!(identity_from(Some("a".to_string()), Err("no name".to_string())), Ok("a".to_string()));
    assert_eq!(identity_from(None, Ok("b".to_string())), Ok("b".to_string()));
    assert_eq!(
        identity_from(None, Err("no name".to_string())),
        Err(ConfigError::NoIdentity { reason: "no name".to_string() })
    );
}

#[test]
fn identity_falls_back_to_the_system() {
    let r = identity(None);
    assert!(matches!(r, Ok(_) | Err(ConfigError::NoIdentity { .. })));
}
