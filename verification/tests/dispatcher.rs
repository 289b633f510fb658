use drone::dispatcher::{Dispatch, EventDispatcher, EventKind, GapCounter, InboundEvent, Received};

fn app(name: &str, sequence: u64) -> InboundEvent {
    InboundEvent { kind: EventKind::Application(name.to_string()), payload: format!("body {}", sequence), sequence }
}

fn sys(sequence: u64) -> InboundEvent {
    InboundEvent { kind: EventKind::System, payload: "phx_close".to_string(), sequence }
}

#[test]
fn events_go_to_the_handler_of_their_name() {
    let mut d = EventDispatcher::new(99);
    d.on_event("reboot".to_string(), 1);
    d.on_event("config".to_string(), 2);
    assert_eq!(d.handler_of(&"reboot".to_string()), Some(1));
    assert_eq!(d.handler_of(&"config".to_string()), Some(2));
    assert_eq!(d.handler_of(&"other".to_string()), None);
    assert_eq!(
        d.dispatch(Received::Event(app("config", 4))),
        Dispatch::Deliver { handler: 2, event: app("config", 4) }
    );
    assert_eq!(
        d.dispatch(Received::Event(app("reboot", 5))),
        Dispatch::Deliver { handler: 1, event: app("reboot", 5) }
    );
}

#[test]
fn system_notices_have_their_own_handler() {
    let mut d = EventDispatcher::new(99);
    assert_eq!(d.dispatch(Received::Event(sys(1))), Dispatch::Discard(sys(1)));
    d.on_system(7);
    assert_eq!(d.dispatch(Received::Event(sys(2))), Dispatch::Deliver { handler: 7, event: sys(2) });
}

#[test]
fn unhandled_event_is_discarded_not_fatal() {
    let mut d = EventDispatcher::new(99);
    d.on_event("reboot".to_string(), 1);
    assert_eq!(d.dispatch(Received::Event(app("unknown", 3))), Dispatch::Discard(app("unknown", 3)));
    assert_eq!(
        d.dispatch(Received::Event(app("reboot", 4))),
        Dispatch::Deliver { handler: 1, event: app("reboot", 4) }
    );
}

#[test]
fn later_binding_replaces_earlier() {
    let mut d = EventDispatcher::new(99);
    d.on_event("reboot".to_string(), 1);
    d.on_event("reboot".to_string(), 5);
    assert_eq!(d.handler_of(&"reboot".to_string()), Some(5));
}

#[test]
fn gap_becomes_one_notice_with_the_count() {
    let mut d = EventDispatcher::new(99);
    d.on_event("reboot".to_string(), 1);
    assert_eq!(d.dispatch(Received::Lagged(7)), Dispatch::Missed { handler: 99, count: 7 });
    assert_eq!(d.dispatch(Received::Lagged(1)), Dispatch::Missed { handler: 99, count: 1 });
    assert_eq!(d.dispatch(Received::Lagged(u64::MAX)), Dispatch::Missed { handler: 99, count: u64::MAX });
}

#[test]
fn closed_stops_the_dispatcher() {
    let d = EventDispatcher::new(99);
    assert_eq!(d.dispatch(Received::Closed), Dispatch::Stop);
}

#[test]
fn batch_keeps_the_order_and_marks_the_gap_in_place() {
    let mut d = EventDispatcher::new(99);
    d.on_event("a".to_string(), 1);
    d.on_system(2);
    let out = d.dispatch_all(vec![
        Received::Event(app("a", 1)),
        Received::Lagged(3),
        Received::Event(sys(5)),
        Received::Event(app("b", 6)),
        Received::Closed,
    ]);
    assert_eq!(
        out,
        vec![
            Dispatch::Deliver { handler: 1, event: app("a", 1) },
            Dispatch::Missed { handler: 99, count: 3 },
            Dispatch::Deliver { handler: 2, event: sys(5) },
            Dispatch::Discard(app("b", 6)),
            Dispatch::Stop,
        ]
    );
    let missed = out.iter().filter(|d| matches!(d, Dispatch::Missed { .. })).count();
    assert_eq!(missed, 1);
    assert_eq!(d.dispatch_all(vec![]), vec![]);
}

#[test]
fn gap_counter_passes_events_while_there_is_room() {
    let mut g = GapCounter::new();
    assert_eq!(g.take_in(3, app("a", 1)), vec![Received::Event(app("a", 1))]);
    assert_eq!(g.take_in(1, app("a", 2)), vec![Received::Event(app("a", 2))]);
    assert_eq!(g.missed, 0);
    assert_eq!(g.report(5), vec![]);
}

#[test]
fn gap_counter_counts_what_finds_no_room_and_tells_it_once() {
    let mut g = GapCounter::new();
    assert_eq!(g.take_in(0, app("a", 1)), vec![]);
    assert_eq!(g.take_in(0, app("a", 2)), vec![]);
    assert_eq!(g.take_in(0, app("a", 3)), vec![]);
    assert_eq!(g.missed, 3);
    assert_eq!(g.take_in(2, app("a", 4)), vec![Received::Lagged(3), Received::Event(app("a", 4))]);
    assert_eq!(g.missed, 0);
    assert_eq!(g.take_in(2, app("a", 5)), vec![Received::Event(app("a", 5))]);
}

#[test]
fn gap_counter_tells_the_gap_before_a_later_event() {
    let mut g = GapCounter::new();
    assert_eq!(g.take_in(0, app("a", 1)), vec![]);
    assert_eq!(g.take_in(1, app("a", 2)), vec![Received::Lagged(1)]);
    assert_eq!(g.missed, 1);
    assert_eq!(g.take_in(9, app("a", 3)), vec![Received::Lagged(1), Received::Event(app("a", 3))]);
    assert_eq!(g.missed, 0);
}

#[test]
fn gap_counter_reports_a_gap_when_nothing_arrives() {
    let mut g = GapCounter::new();
    g.take_in(0, app("a", 1));
    g.take_in(0, app("a", 2));
    assert_eq!(g.report(0), vec![]);
    assert_eq!(g.missed, 2);
    assert_eq!(g.report(1), vec![Received::Lagged(2)]);
    assert_eq!(g.missed, 0);
    assert_eq!(g.report(1), vec![]);
}

#[test]
fn gap_counter_count_saturates() {
    let mut g = GapCounter { missed: u64::MAX };
    assert_eq!(g.take_in(0, app("a", 1)), vec![]);
    assert_eq!(g.missed, u64::MAX);
}

#[test]
fn gap_through_counter_and_dispatcher_reaches_the_overflow_handler_once() {
    let mut g = GapCounter::new();
    let mut d = EventDispatcher::new(99);
    d.on_event("a".to_string(), 1);
    let mut buffer = Vec::new();
    buffer.extend(g.take_in(1, app("a", 1)));
    for n in 2..=6 {
        buffer.extend(g.take_in(0, app("a", n)));
    }
    buffer.extend(g.take_in(2, app("a", 7)));
    assert_eq!(
        d.dispatch_all(buffer),
        vec![
            Dispatch::Deliver { handler: 1, event: app("a", 1) },
            Dispatch::Missed { handler: 99, count: 5 },
            Dispatch::Deliver { handler: 1, event: app("a", 7) },
        ]
    );
}
