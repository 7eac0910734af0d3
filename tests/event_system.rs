use avmnif::event_system::{Event, EventSource, EventSystem, EventType};
use avmnif::message_dispatch::MessageOp;

#[test]
fn test_event_creation() {
    let event = Event::new(
        EventType::CounterOperation(MessageOp::Inc),
        EventSource::CounterPort,
    );
    assert_eq!(event.event_type, EventType::CounterOperation(MessageOp::Inc));
    assert_eq!(event.source, EventSource::CounterPort);
}

#[test]
fn test_event_system_publish() {
    let mut sys = EventSystem::new();
    let event = Event::new(
        EventType::CounterOperation(MessageOp::Inc),
        EventSource::CounterPort,
    );

    sys.publish(event.clone());
    assert_eq!(sys.event_count(), 1);
    assert_eq!(sys.last_event().map(|e| e.timestamp), Some(1));
}

#[test]
fn test_event_system_multiple_publishes() {
    let mut sys = EventSystem::new();

    for i in 0..5 {
        sys.publish_counter_op(MessageOp::Inc, EventSource::CounterPort);
        assert_eq!(sys.event_count(), i + 1);
    }
}

#[test]
fn test_event_system_by_source() {
    let mut sys = EventSystem::new();

    sys.publish_counter_op(MessageOp::Inc, EventSource::CounterPort);
    sys.publish_counter_op(MessageOp::Dec, EventSource::EchoPort);
    sys.publish_counter_op(MessageOp::Inc, EventSource::CounterPort);

    let counter_events = sys.events_by_source(EventSource::CounterPort);
    assert_eq!(counter_events.len(), 2);

    let echo_events = sys.events_by_source(EventSource::EchoPort);
    assert_eq!(echo_events.len(), 1);
}

#[test]
fn test_event_system_max_events() {
    let mut sys = EventSystem::new();
    sys.set_max_events(5);

    for _ in 0..10 {
        sys.publish_counter_op(MessageOp::Inc, EventSource::CounterPort);
    }

    assert_eq!(sys.event_count(), 5);
}

#[test]
fn test_event_system_clear() {
    let mut sys = EventSystem::new();
    sys.publish_counter_op(MessageOp::Inc, EventSource::CounterPort);
    sys.publish_counter_op(MessageOp::Dec, EventSource::CounterPort);

    assert_eq!(sys.event_count(), 2);
    sys.clear_events();
    assert_eq!(sys.event_count(), 0);
}
