use avmnif::message_dispatch::MessageOp;
use avmnif::port_drivers::CounterPortData;
use avmnif::port_state_machine::{PortState, PortStateMachine};

#[test]
fn test_state_machine_creation() {
    let machine = PortStateMachine::new();
    assert_eq!(machine.current_state(), PortState::Idle);
    assert_eq!(machine.operation_count(), 0);
}

#[test]
fn test_state_machine_increment() {
    let mut machine = PortStateMachine::new();
    let mut port_data = CounterPortData::new();

    let result = machine.handle_operation(&mut port_data, MessageOp::Inc);
    assert!(result.is_ok());
    assert_eq!(result.unwrap(), 1);
    assert_eq!(machine.current_state(), PortState::Idle);
}

#[test]
fn test_state_machine_sequence() {
    let mut machine = PortStateMachine::new();
    let mut port_data = CounterPortData::new();

    machine.handle_operation(&mut port_data, MessageOp::Inc).unwrap();
    machine.handle_operation(&mut port_data, MessageOp::Inc).unwrap();
    machine.handle_operation(&mut port_data, MessageOp::Dec).unwrap();

    assert_eq!(port_data.counter, 1);
    assert_eq!(machine.operation_count(), 3);
}

#[test]
fn test_state_machine_get_operation() {
    let mut machine = PortStateMachine::new();
    let mut port_data = CounterPortData::new();
    port_data.counter = 42;

    let result = machine.handle_operation(&mut port_data, MessageOp::Get);
    assert_eq!(result.unwrap(), 42);
}

#[test]
fn test_state_machine_reset_operation() {
    let mut machine = PortStateMachine::new();
    let mut port_data = CounterPortData::new();
    port_data.counter = 100;

    machine.handle_operation(&mut port_data, MessageOp::Reset).unwrap();
    assert_eq!(port_data.counter, 0);
}

#[test]
fn test_state_machine_error_handling() {
    let mut machine = PortStateMachine::new();
    let mut port_data = CounterPortData::new();

    let result = machine.handle_operation(&mut port_data, MessageOp::Unknown);
    assert!(result.is_err());
    assert_eq!(machine.current_state(), PortState::Error);
    assert!(machine.last_error().is_some());
}

#[test]
fn test_state_machine_reset() {
    let mut machine = PortStateMachine::new();
    machine.state = PortState::Error;
    machine.last_error = Some("test error");

    machine.reset();
    assert_eq!(machine.current_state(), PortState::Idle);
    assert!(machine.last_error().is_none());
    assert_eq!(machine.operation_count(), 0);
}
