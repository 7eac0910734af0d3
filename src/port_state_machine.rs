//! The per-resource operation state machine: Idle, Processing, Error.

use vstd::prelude::*;
use crate::port_drivers::CounterPortData;
use crate::message_dispatch::{MessageDispatcher, MessageOp, apply_op};

verus! {

/// Message of the failure of an operation requested while not idle.
pub const INVALID_TRANSITION: &'static str = "Invalid state transition";

/// Message of the failure of an operation no handler knows.
pub const UNKNOWN_OPERATION: &'static str = "Unknown operation";

/// States of a port.
#[derive(Debug, Clone, Copy, PartialEq, Eq, Structural)]
pub enum PortState {
    Idle,
    Processing,
    Error,
}

/// Runs one operation at a time against a counter port.
pub struct PortStateMachine {
    pub state: PortState,
    pub dispatcher: MessageDispatcher,
    pub last_error: Option<&'static str>,
}

impl PortStateMachine {
    pub fn new() -> (r: PortStateMachine)
        ensures
            r.state == PortState::Idle,
            r.dispatcher.operations@.len() == 0,
            r.last_error.is_none(),
    {
        PortStateMachine { state: PortState::Idle, dispatcher: MessageDispatcher::new(), last_error: None }
    }

    pub fn current_state(&self) -> (r: PortState)
        ensures
            r == self.state,
    {
        self.state
    }

    /// Runs `op` against `port_data`. Only an idle machine takes an
    /// operation: otherwise it moves to Error and fails with
    /// `INVALID_TRANSITION`, leaving the port and the log alone. An idle
    /// machine applies a recognized operation with saturating arithmetic,
    /// stores the new value, returns to Idle and returns the value; an
    /// unrecognized one leaves the port alone, moves to Error and fails with
    /// `UNKNOWN_OPERATION`. Every operation an idle machine takes is logged.
    pub fn handle_operation(&mut self, port_data: &mut CounterPortData, op: MessageOp) -> (r: Result<
        i32,
        &'static str,
    >)
        ensures
            old(self).state != PortState::Idle ==> {
                &&& r == Err::<i32, &'static str>(INVALID_TRANSITION)
                &&& final(self).state == PortState::Error
                &&& final(self).last_error == Some(INVALID_TRANSITION)
                &&& final(self).dispatcher.operations@ == old(self).dispatcher.operations@
                &&& *final(port_data) == *old(port_data)
            },
            old(self).state == PortState::Idle ==> {
                let (v, known) = apply_op(op, old(port_data).counter);
                &&& final(self).dispatcher.operations@ == old(self).dispatcher.operations@.push(
                    (op, v),
                )
                &&& known ==> {
                    &&& r == Ok::<i32, &'static str>(v)
                    &&& final(self).state == PortState::Idle
                    &&& final(self).last_error == old(self).last_error
                    &&& *final(port_data) == (CounterPortData { counter: v, ..*old(port_data) })
                }
                &&& !known ==> {
                    &&& r == Err::<i32, &'static str>(UNKNOWN_OPERATION)
                    &&& final(self).state == PortState::Error
                    &&& final(self).last_error == Some(UNKNOWN_OPERATION)
                    &&& *final(port_data) == *old(port_data)
                }
            },
    {
        if self.state != PortState::Idle {
            self.state = PortState::Error;
            self.last_error = Some(INVALID_TRANSITION);
            return Err(INVALID_TRANSITION);
        }
        self.state = PortState::Processing;
        let (new_value, success) = self.dispatcher.dispatch_counter(op, port_data.counter);
        if !success {
            self.state = PortState::Error;
            self.last_error = Some(UNKNOWN_OPERATION);
            return Err(UNKNOWN_OPERATION);
        }
        port_data.counter = new_value;
        self.state = PortState::Idle;
        Ok(new_value)
    }

    pub fn last_error(&self) -> (r: Option<&'static str>)
        ensures
            r == self.last_error,
    {
        self.last_error
    }

    /// Number of operations logged.
    pub fn operation_count(&self) -> (r: usize)
        ensures
            r == self.dispatcher.operations@.len(),
    {
        self.dispatcher.operation_count()
    }

    /// Forgets the last error; the state is left as it is.
    pub fn clear_error(&mut self)
        ensures
            final(self).last_error.is_none(),
            final(self).state == old(self).state,
            final(self).dispatcher.operations@ == old(self).dispatcher.operations@,
    {
        self.last_error = None;
    }

    /// Back to Idle with an empty log and no error.
    pub fn reset(&mut self)
        ensures
            final(self).state == PortState::Idle,
            final(self).dispatcher.operations@.len() == 0,
            final(self).last_error.is_none(),
    {
        self.state = PortState::Idle;
        self.dispatcher.clear_log();
        self.last_error = None;
    }
}

} // verus!
