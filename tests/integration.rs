use avmnif::integration::CounterPortSystem;
use avmnif::message_dispatch::MessageOp;

#[test]
fn test_system_creation() {
    let sys = CounterPortSystem::new(0);
    assert_eq!(sys.get_value(), 0);
    assert_eq!(sys.operation_count(), 0);
    assert_eq!(sys.event_count(), 0);
}

#[test]
fn test_system_single_operation() {
    let mut sys = CounterPortSystem::new(0);

    let result = sys.process_operation(MessageOp::Inc);
    assert!(result.is_ok());
    assert_eq!(sys.get_value(), 1);
    assert_eq!(sys.operation_count(), 1);
    assert_eq!(sys.event_count(), 1);
}

#[test]
fn test_system_multiple_operations() {
    let mut sys = CounterPortSystem::new(5);

    sys.process_operation(MessageOp::Inc).unwrap();
    sys.process_operation(MessageOp::Inc).unwrap();
    sys.process_operation(MessageOp::Dec).unwrap();

    // 5 + 1 + 1 - 1 = 6
    assert_eq!(sys.get_value(), 6);
    assert_eq!(sys.operation_count(), 3);
    assert_eq!(sys.event_count(), 3);
}

#[test]
fn test_system_sequence() {
    let mut sys = CounterPortSystem::new(10);

    let ops = [
        MessageOp::Inc,
        MessageOp::Inc,
        MessageOp::Dec,
        MessageOp::Get,
    ];

    let (final_value, success_count) = sys.execute_sequence(&ops);

    assert_eq!(final_value, 11);
    assert_eq!(success_count, 4);
}

#[test]
fn test_system_reset() {
    let mut sys = CounterPortSystem::new(0);

    sys.process_operation(MessageOp::Inc).unwrap();
    sys.process_operation(MessageOp::Inc).unwrap();
    assert_eq!(sys.get_value(), 2);

    sys.reset();
    assert_eq!(sys.get_value(), 0);
    assert_eq!(sys.operation_count(), 0);
    assert_eq!(sys.event_count(), 0);
}

#[test]
fn test_system_state_transitions() {
    let mut sys = CounterPortSystem::new(0);

    assert_eq!(sys.state_machine_state(), "idle");

    sys.process_operation(MessageOp::Inc).unwrap();
    assert_eq!(sys.state_machine_state(), "idle");
}

#[test]
fn test_system_boundary_values() {
    let mut sys = CounterPortSystem::new(i32::MAX - 1);

    sys.process_operation(MessageOp::Inc).unwrap();
    assert_eq!(sys.get_value(), i32::MAX);

    // Should saturate
    sys.process_operation(MessageOp::Inc).unwrap();
    assert_eq!(sys.get_value(), i32::MAX);
}

#[test]
fn test_system_error_handling() {
    let mut sys = CounterPortSystem::new(0);

    let result = sys.process_operation(MessageOp::Unknown);
    assert!(result.is_err());
    assert_eq!(sys.state_machine_state(), "error");
}

#[test]
fn test_system_get_operation() {
    let mut sys = CounterPortSystem::new(42);

    let result = sys.process_operation(MessageOp::Get);
    assert!(result.is_ok());
    assert_eq!(result.unwrap(), 42);
}

#[test]
fn test_system_complex_workflow() {
    let mut sys = CounterPortSystem::new(0);

    // Simulate real usage pattern
    let ops = [
        MessageOp::Inc,
        MessageOp::Inc,
        MessageOp::Get,
        MessageOp::Dec,
        MessageOp::Inc,
        MessageOp::Inc,
        MessageOp::Get,
        MessageOp::Reset,
        MessageOp::Get,
    ];

    let (final_value, success_count) = sys.execute_sequence(&ops);

    assert_eq!(final_value, 0);
    assert_eq!(success_count, 9);
    assert_eq!(sys.operation_count(), 9);
}
