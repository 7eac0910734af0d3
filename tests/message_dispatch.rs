use avmnif::message_dispatch::{MessageDispatcher, MessageOp, MessageResponse};

#[test]
fn test_message_op_parsing() {
    assert_eq!(MessageOp::from_atom_name("inc"), MessageOp::Inc);
    assert_eq!(MessageOp::from_atom_name("dec"), MessageOp::Dec);
    assert_eq!(MessageOp::from_atom_name("get"), MessageOp::Get);
    assert_eq!(MessageOp::from_atom_name("reset"), MessageOp::Reset);
    assert_eq!(MessageOp::from_atom_name("unknown"), MessageOp::Unknown);
}

#[test]
fn test_message_response() {
    let ok = MessageResponse::ok(42);
    assert!(ok.success);
    assert_eq!(ok.value, 42);

    let err = MessageResponse::error();
    assert!(!err.success);
    assert_eq!(err.value, 0);
}

#[test]
fn test_dispatcher_increment() {
    let mut dispatcher = MessageDispatcher::new();
    let (val, success) = dispatcher.dispatch_counter(MessageOp::Inc, 0);
    assert!(success);
    assert_eq!(val, 1);
    assert_eq!(dispatcher.operation_count(), 1);
}

#[test]
fn test_dispatcher_sequence() {
    let mut dispatcher = MessageDispatcher::new();

    let (v1, _) = dispatcher.dispatch_counter(MessageOp::Inc, 0);
    assert_eq!(v1, 1);

    let (v2, _) = dispatcher.dispatch_counter(MessageOp::Inc, v1);
    assert_eq!(v2, 2);

    let (v3, _) = dispatcher.dispatch_counter(MessageOp::Dec, v2);
    assert_eq!(v3, 1);

    assert_eq!(dispatcher.operation_count(), 3);
}

#[test]
fn test_dispatcher_saturating_arithmetic() {
    let mut dispatcher = MessageDispatcher::new();

    let (val, _) = dispatcher.dispatch_counter(MessageOp::Dec, i32::MIN);
    assert_eq!(val, i32::MIN); // Saturates at min

    let (val, _) = dispatcher.dispatch_counter(MessageOp::Inc, i32::MAX);
    assert_eq!(val, i32::MAX); // Saturates at max
}
