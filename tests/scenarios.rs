use avmnif::atom_table::MockAtomTable;
use avmnif::command_executor::{Command, CommandExecutor};
use avmnif::integration::CounterPortSystem;
use avmnif::message_dispatch::{MessageDispatcher, MessageOp, MessageResponse};
use avmnif::term::{MockHeap, TermValue};
use avmnif::port_drivers::CounterPortData;
use avmnif::port_state_machine::{PortState, PortStateMachine};

#[test]
fn counter_walk_from_five() {
    let mut sys = CounterPortSystem::new(5);
    assert_eq!(sys.process_operation(MessageOp::Inc), Ok(6));
    assert_eq!(sys.process_operation(MessageOp::Inc), Ok(7));
    assert_eq!(sys.process_operation(MessageOp::Dec), Ok(6));
    assert_eq!(sys.process_operation(MessageOp::Reset), Ok(0));
    assert_eq!(sys.get_value(), 0);
}

#[test]
fn unknown_operation_then_reset() {
    let mut machine = PortStateMachine::new();
    let mut data = CounterPortData::new();
    data.counter = 3;
    assert!(machine.handle_operation(&mut data, MessageOp::Unknown).is_err());
    assert_eq!(machine.current_state(), PortState::Error);
    assert_eq!(data.counter, 3);
    machine.reset();
    assert_eq!(machine.current_state(), PortState::Idle);
    assert_eq!(machine.handle_operation(&mut data, MessageOp::Inc), Ok(4));
}

#[test]
fn busy_machine_refuses_and_keeps_state() {
    let mut machine = PortStateMachine::new();
    let mut data = CounterPortData::new();
    data.counter = 9;
    machine.state = PortState::Processing;
    assert_eq!(machine.handle_operation(&mut data, MessageOp::Inc), Err("Invalid state transition"));
    assert_eq!(data.counter, 9);
    assert_eq!(machine.current_state(), PortState::Error);
    assert_eq!(machine.handle_operation(&mut data, MessageOp::Reset), Err("Invalid state transition"));
    assert_eq!(data.counter, 9);
    assert_eq!(machine.operation_count(), 0);
}

#[test]
fn saturation_is_a_no_op() {
    let mut d = MessageDispatcher::new();
    assert_eq!(d.dispatch_counter(MessageOp::Inc, i32::MAX), (i32::MAX, true));
    assert_eq!(d.dispatch_counter(MessageOp::Dec, i32::MIN), (i32::MIN, true));
    assert_eq!(d.dispatch_counter(MessageOp::Unknown, 4), (4, false));
    assert_eq!(d.last_operation(), Some((MessageOp::Unknown, 4)));
}

#[test]
fn error_sticks_until_reset() {
    let mut exec = CommandExecutor::new(1);
    exec.system.process_operation(MessageOp::Unknown).unwrap_err();
    let r = exec.execute(Command::Increment);
    assert!(!r.success);
    assert_eq!(r.error_message, Some("Invalid state transition"));
    assert_eq!(exec.success_rate(), 0);
    exec.reset();
    assert!(exec.execute(Command::Increment).success);
    assert_eq!(exec.current_value(), 1);
}

#[test]
fn atom_ordering() {
    let mut table = MockAtomTable::new_empty();
    let b = table.ensure_atom_str("b").unwrap();
    let ab = table.ensure_atom_str("ab").unwrap();
    let a = table.ensure_atom_str("a").unwrap();
    assert_eq!(table.compare_atoms(a, ab), -1);
    assert_eq!(table.compare_atoms(ab, b), -1);
    assert_eq!(table.compare_atoms(b, a), 1);
    assert_eq!(table.list_all_atoms().len(), 3);
    assert!(table.ensure_atom(&[0xff, 0xfe]).is_err());
}

#[test]
fn reply_terms() {
    let mut heap = MockHeap::new();
    let ok = MessageResponse::ok(6).to_term(&mut heap).unwrap();
    let err = MessageResponse::error().to_term(&mut heap).unwrap();
    match ok.to_value(&heap).unwrap() {
        TermValue::Tuple(items) => {
            assert_eq!(items.len(), 2);
            assert_eq!(items[0].as_atom().map(|a| a.0), Some(1));
            assert_eq!(items[1].as_int(), Some(6));
        }
        _ => panic!("reply is not a tuple"),
    }
    match err.to_value(&heap).unwrap() {
        TermValue::Tuple(items) => assert_eq!(items[0].as_atom().map(|a| a.0), Some(2)),
        _ => panic!("reply is not a tuple"),
    }
    assert!(MessageResponse::ok(i32::MAX).to_term(&mut heap).is_err());
}
