use drone::channel::{ControlChannel, JoinOutcome};
use drone::connection::ConnectionState;
use drone::message::{source_of, DeliveryMode, LocalEvent, LocalPayload, OutboundMessage, Payload};
use drone::uplink::{UplinkMultiplexer, DEFAULT_BOUND};

fn joined() -> ControlChannel {
    let mut c = ControlChannel::new("drone:cnc".to_string());
    c.begin_join(ConnectionState::Connected).unwrap();
    c.join_settled(JoinOutcome::Accepted).unwrap();
    c
}

fn line(source: u64, n: u64) -> LocalEvent {
    LocalEvent {
        source,
        timestamp: n,
        payload: LocalPayload::TailLine { path: format!("/var/log/{}", source), text: format!("line {}", n) },
    }
}

fn probe(source: u64, n: u64, reachable: bool) -> LocalEvent {
    LocalEvent {
        source,
        timestamp: n,
        payload: LocalPayload::ProbeResult { address: "10.0.0.1".to_string(), reachable, latency_ms: n },
    }
}

fn sent(event: &str, e: LocalEvent) -> OutboundMessage {
    OutboundMessage {
        topic: "drone:cnc".to_string(),
        event: event.to_string(),
        payload: Payload::Local(e),
        mode: DeliveryMode::FireAndForget,
        correlation: None,
    }
}

fn events_of(out: &[OutboundMessage], source: u64) -> Vec<LocalEvent> {
    let mut v = Vec::new();
    for m in out {
        if let Payload::Local(e) = &m.payload {
            if e.source == source {
                v.push(e.clone());
            }
        }
    }
    v
}

#[test]
fn default_bound_is_one_hundred() {
    let m = UplinkMultiplexer::with_default_bound();
    assert_eq!(DEFAULT_BOUND, 100);
    assert_eq!(m.bound, 100);
    assert!(m.slots.is_empty());
    assert_eq!(UplinkMultiplexer::new(3).bound, 3);
}

#[test]
fn event_names_follow_the_payload() {
    assert_eq!(line(1, 1).payload.event_name(), "tail_line");
    assert_eq!(probe(1, 1, true).payload.event_name(), "probe_result");
}

#[test]
fn joined_channel_publishes_at_once() {
    let c = joined();
    let mut m = UplinkMultiplexer::with_default_bound();
    assert!(m.register(1));
    assert_eq!(m.accept(&c, line(1, 1)), vec![sent("tail_line", line(1, 1))]);
    assert_eq!(m.accept(&c, probe(1, 2, false)), vec![sent("probe_result", probe(1, 2, false))]);
    assert_eq!(m.backlog_len(1), 0);
    assert_eq!(m.dropped_count(1), 0);
}

#[test]
fn nothing_is_sent_while_not_joined() {
    let mut c = ControlChannel::new("drone:cnc".to_string());
    let mut m = UplinkMultiplexer::with_default_bound();
    m.register(1);
    assert!(m.accept(&c, line(1, 1)).is_empty());
    assert!(m.resume(&c).is_empty());
    c.begin_join(ConnectionState::Connected).unwrap();
    assert!(m.accept(&c, line(1, 2)).is_empty());
    assert!(m.resume(&c).is_empty());
    assert_eq!(m.backlog_len(1), 2);
    c.join_settled(JoinOutcome::Accepted).unwrap();
    assert_eq!(m.resume(&c), vec![sent("tail_line", line(1, 1)), sent("tail_line", line(1, 2))]);
    assert_eq!(m.backlog_len(1), 0);
    assert!(m.resume(&c).is_empty());
}

#[test]
fn outage_keeps_the_latest_hundred_in_order() {
    let mut c = joined();
    let mut m = UplinkMultiplexer::with_default_bound();
    m.register(1);
    assert_eq!(m.accept(&c, line(1, 0)).len(), 1);
    c.link_changed(ConnectionState::Failed);
    for n in 1..=150 {
        assert!(m.accept(&c, line(1, n)).is_empty());
    }
    assert_eq!(m.backlog_len(1), 100);
    assert_eq!(m.dropped_count(1), 50);
    assert!(m.resume(&c).is_empty());
    c.link_changed(ConnectionState::Connected);
    assert!(m.resume(&c).is_empty());
    c.join_settled(JoinOutcome::Accepted).unwrap();
    let out = m.resume(&c);
    let expected: Vec<OutboundMessage> = (51..=150).map(|n| sent("tail_line", line(1, n))).collect();
    assert_eq!(out, expected);
    assert_eq!(m.backlog_len(1), 0);
    assert_eq!(m.dropped_count(1), 50);
}

#[test]
fn backlog_goes_out_before_a_new_event_of_the_same_source() {
    let mut c = ControlChannel::new("drone:cnc".to_string());
    let mut m = UplinkMultiplexer::new(2);
    m.register(1);
    m.register(2);
    m.accept(&c, line(1, 1));
    m.accept(&c, line(2, 1));
    m.accept(&c, line(1, 2));
    m.accept(&c, line(1, 3));
    c.begin_join(ConnectionState::Connected).unwrap();
    c.join_settled(JoinOutcome::Accepted).unwrap();
    assert_eq!(
        m.accept(&c, line(1, 4)),
        vec![sent("tail_line", line(1, 2)), sent("tail_line", line(1, 3)), sent("tail_line", line(1, 4))]
    );
    assert_eq!(m.dropped_count(1), 1);
    assert_eq!(m.backlog_len(2), 1);
    assert_eq!(m.resume(&c), vec![sent("tail_line", line(2, 1))]);
}

#[test]
fn two_tails_keep_their_own_order() {
    let mut c = ControlChannel::new("drone:cnc".to_string());
    let mut m = UplinkMultiplexer::with_default_bound();
    m.register(10);
    m.register(20);
    let mut out = Vec::new();
    out.extend(m.accept(&c, line(20, 1)));
    out.extend(m.accept(&c, line(10, 1)));
    out.extend(m.accept(&c, line(10, 2)));
    c.begin_join(ConnectionState::Connected).unwrap();
    c.join_settled(JoinOutcome::Accepted).unwrap();
    out.extend(m.resume(&c));
    out.extend(m.accept(&c, line(20, 2)));
    out.extend(m.accept(&c, line(10, 3)));
    out.extend(m.accept(&c, line(20, 3)));
    assert_eq!(out.len(), 6);
    assert_eq!(events_of(&out, 10), vec![line(10, 1), line(10, 2), line(10, 3)]);
    assert_eq!(events_of(&out, 20), vec![line(20, 1), line(20, 2), line(20, 3)]);
}

#[test]
fn register_once_only() {
    let mut m = UplinkMultiplexer::new(4);
    assert!(m.register(1));
    assert!(!m.register(1));
    assert!(m.register(2));
    assert_eq!(m.slots.len(), 2);
    assert_eq!(m.find(1), Some(0));
    assert_eq!(m.find(2), Some(1));
    assert_eq!(m.find(3), None);
}

#[test]
fn ended_source_leaves_the_others_alone() {
    let c = ControlChannel::new("drone:cnc".to_string());
    let mut m = UplinkMultiplexer::new(4);
    m.register(1);
    m.register(2);
    m.register(3);
    m.accept(&c, line(1, 1));
    m.accept(&c, line(2, 1));
    m.accept(&c, line(3, 1));
    assert!(m.unregister(2));
    assert!(!m.unregister(2));
    assert_eq!(m.find(2), None);
    assert_eq!(m.backlog_len(1), 1);
    assert_eq!(m.backlog_len(2), 0);
    assert_eq!(m.backlog_len(3), 1);
    assert!(m.accept(&c, line(2, 2)).is_empty());
    assert_eq!(m.backlog_len(2), 0);
}

#[test]
fn event_of_unknown_source_is_given_up() {
    let c = joined();
    let mut m = UplinkMultiplexer::new(4);
    m.register(1);
    let before = m.clone();
    assert!(m.accept(&c, line(9, 1)).is_empty());
    assert_eq!(m, before);
}

#[test]
fn bound_of_zero_holds_nothing() {
    let mut c = ControlChannel::new("drone:cnc".to_string());
    let mut m = UplinkMultiplexer::new(0);
    m.register(1);
    assert!(m.accept(&c, line(1, 1)).is_empty());
    assert!(m.accept(&c, line(1, 2)).is_empty());
    assert_eq!(m.backlog_len(1), 0);
    assert_eq!(m.dropped_count(1), 2);
    c.begin_join(ConnectionState::Connected).unwrap();
    c.join_settled(JoinOutcome::Accepted).unwrap();
    assert!(m.resume(&c).is_empty());
    assert_eq!(m.accept(&c, line(1, 3)), vec![sent("tail_line", line(1, 3))]);
}

#[test]
fn bound_of_one_keeps_the_newest() {
    let mut c = ControlChannel::new("drone:cnc".to_string());
    let mut m = UplinkMultiplexer::new(1);
    m.register(1);
    m.accept(&c, line(1, 1));
    m.accept(&c, line(1, 2));
    m.accept(&c, line(1, 3));
    assert_eq!(m.dropped_count(1), 2);
    c.begin_join(ConnectionState::Connected).unwrap();
    c.join_settled(JoinOutcome::Accepted).unwrap();
    assert_eq!(m.resume(&c), vec![sent("tail_line", line(1, 3))]);
}

#[test]
fn builders_fill_the_payload() {
    assert_eq!(
        LocalEvent::tail_line(3, 9, "/var/log/syslog".to_string(), "hello".to_string()),
        LocalEvent {
            source: 3,
            timestamp: 9,
            payload: LocalPayload::TailLine { path: "/var/log/syslog".to_string(), text: "hello".to_string() },
        }
    );
    assert_eq!(
        LocalEvent::probe_result(4, 10, "10.0.0.1".to_string(), true, 12),
        LocalEvent {
            source: 4,
            timestamp: 10,
            payload: LocalPayload::ProbeResult { address: "10.0.0.1".to_string(), reachable: true, latency_ms: 12 },
        }
    );
}

#[test]
fn source_of_is_the_first_place_of_the_path() {
    let paths = vec!["/var/log/a".to_string(), "/var/log/b".to_string(), "/var/log/a".to_string()];
    assert_eq!(source_of(&paths, &"/var/log/a".to_string()), Some(0));
    assert_eq!(source_of(&paths, &"/var/log/b".to_string()), Some(1));
    assert_eq!(source_of(&paths, &"/var/log/c".to_string()), None);
    assert_eq!(source_of(&paths, &"a".to_string()), None);
    assert_eq!(source_of(&Vec::new(), &"/var/log/a".to_string()), None);
}

#[test]
fn outage_drops_exactly_the_excess() {
    let c = ControlChannel::new("drone:cnc".to_string());
    for (bound, arrivals, dropped) in [(3usize, 2u64, 0u64), (3, 3, 0), (3, 4, 1), (3, 10, 7), (1, 5, 4), (0, 5, 5)] {
        let mut m = UplinkMultiplexer::new(bound);
        m.register(1);
        for n in 0..arrivals {
            m.accept(&c, line(1, n));
        }
        assert_eq!(m.dropped_count(1), dropped);
        assert_eq!(m.backlog_len(1) as u64, arrivals - dropped);
    }
}
