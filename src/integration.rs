//! The counter port system: a counter driven through the state machine,
//! with every request logged as an event.

use vstd::prelude::*;
use crate::counter::SafeCounter;
use crate::event_system::{EventSystem, EventSource, EventType, Event, published};
use crate::message_dispatch::{MessageOp, apply_op};
use crate::port_drivers::{CounterPortData, CounterOp};
use crate::port_state_machine::{PortStateMachine, PortState, INVALID_TRANSITION, UNKNOWN_OPERATION};

verus! {

/// One request against a machine in state `st` holding `v`: the next
/// state, the next value and whether the request succeeded.
pub open spec fn step(st: PortState, v: i32, op: MessageOp) -> (PortState, i32, bool) {
    if st != PortState::Idle {
        (PortState::Error, v, false)
    } else {
        let (nv, known) = apply_op(op, v);
        if known {
            (PortState::Idle, nv, true)
        } else {
            (PortState::Error, v, false)
        }
    }
}

/// A run of requests: the final state, the final value and how many
/// requests succeeded.
pub open spec fn run(st: PortState, v: i32, ops: Seq<MessageOp>) -> (PortState, i32, nat)
    decreases ops.len(),
{
    if ops.len() == 0 {
        (st, v, 0)
    } else {
        let (st1, v1, n1) = run(st, v, ops.drop_last());
        let (st2, v2, ok) = step(st1, v1, ops.last());
        (st2, v2, if ok { n1 + 1 } else { n1 })
    }
}

/// The failure message of a request that `step` says fails.
pub open spec fn failure_of(st: PortState) -> &'static str {
    if st != PortState::Idle {
        INVALID_TRANSITION
    } else {
        UNKNOWN_OPERATION
    }
}

/// The counter, its state machine and its event log.
pub struct CounterPortSystem {
    pub counter: SafeCounter,
    pub state_machine: PortStateMachine,
    pub event_system: EventSystem,
}

impl CounterPortSystem {
    pub fn new(initial_value: i32) -> (r: CounterPortSystem)
        ensures
            r.counter.counter.value == initial_value,
            r.state_machine.state == PortState::Idle,
            r.state_machine.dispatcher.operations@.len() == 0,
            r.event_system.events@.len() == 0,
            r.event_system.timestamp_counter == 0,
    {
        CounterPortSystem {
            counter: SafeCounter::new(initial_value),
            state_machine: PortStateMachine::new(),
            event_system: EventSystem::new(),
        }
    }

    /// Logs the request as an event, then runs it through the state
    /// machine against the counter.
    pub fn process_operation(&mut self, op: MessageOp) -> (r: Result<i32, &'static str>)
        requires
            old(self).event_system.timestamp_counter < u64::MAX,
        ensures
            ({
                let (st, v, ok) = step(
                    old(self).state_machine.state,
                    old(self).counter.counter.value,
                    op,
                );
                &&& final(self).state_machine.state == st
                &&& final(self).counter.counter.value == v
                &&& r == if ok {
                    Ok::<i32, &'static str>(v)
                } else {
                    Err(failure_of(old(self).state_machine.state))
                }
            }),
            final(self).event_system.timestamp_counter == old(self).event_system.timestamp_counter
                + 1,
            final(self).event_system.max_events == old(self).event_system.max_events,
            final(self).event_system.events@ == published(
                old(self).event_system.events@,
                Event {
                    event_type: EventType::CounterOperation(op),
                    timestamp: 0,
                    source: EventSource::CounterPort,
                },
                final(self).event_system.timestamp_counter,
                old(self).event_system.max_events,
            ),
            final(self).state_machine.dispatcher.operations@.len() == old(
                self,
            ).state_machine.dispatcher.operations@.len() + if old(self).state_machine.state
                == PortState::Idle {
                1int
            } else {
                0int
            },
    {
        self.event_system.publish_counter_op(op, EventSource::CounterPort);
        let mut port_data = CounterPortData { counter: self.counter.get(), last_op: CounterOp::Idle };
        let result = self.state_machine.handle_operation(&mut port_data, op);
        match result {
            Err(e) => Err(e),
            Ok(v) => {
                match op {
                    MessageOp::Inc => {
                        self.counter.increment();
                    },
                    MessageOp::Dec => {
                        self.counter.decrement();
                    },
                    MessageOp::Reset => {
                        self.counter.reset();
                    },
                    MessageOp::Get => {},
                    MessageOp::Unknown => {},
                }
                Ok(v)
            },
        }
    }

    pub fn get_value(&self) -> (r: i32)
        ensures
            r == self.counter.counter.value,
    {
        self.counter.get()
    }

    /// Number of requests the state machine has logged.
    pub fn operation_count(&self) -> (r: usize)
        ensures
            r == self.state_machine.dispatcher.operations@.len(),
    {
        self.state_machine.operation_count()
    }

    pub fn event_count(&self) -> (r: usize)
        ensures
            r == self.event_system.events@.len(),
    {
        self.event_system.event_count()
    }

    /// Runs the requests in order; returns the final value and how many
    /// requests succeeded.
    pub fn execute_sequence(&mut self, ops: &[MessageOp]) -> (r: (i32, usize))
        requires
            old(self).event_system.timestamp_counter + ops@.len() <= u64::MAX,
        ensures
            ({
                let (st, v, n) = run(old(self).state_machine.state, old(self).counter.counter.value, ops@);
                &&& final(self).state_machine.state == st
                &&& final(self).counter.counter.value == v
                &&& r == (v, n as usize)
            }),
            final(self).event_system.timestamp_counter == old(self).event_system.timestamp_counter
                + ops@.len(),
    {
        let mut success_count: usize = 0;
        let mut i: usize = 0;
        proof {
            assert(ops@.take(0) =~= Seq::<MessageOp>::empty());
        }
        while i < ops.len()
            invariant
                i <= ops@.len(),
                self.event_system.timestamp_counter == old(self).event_system.timestamp_counter + i,
                old(self).event_system.timestamp_counter + ops@.len() <= u64::MAX,
                success_count <= i,
                ({
                    let (st, v, n) = run(
                        old(self).state_machine.state,
                        old(self).counter.counter.value,
                        ops@.take(i as int),
                    );
                    &&& self.state_machine.state == st
                    &&& self.counter.counter.value == v
                    &&& success_count == n
                }),
            decreases ops@.len() - i,
        {
            proof {
                assert(ops@.take(i + 1).drop_last() =~= ops@.take(i as int));
            }
            if self.process_operation(ops[i]).is_ok() {
                success_count = success_count + 1;
            }
            i = i + 1;
        }
        proof {
            assert(ops@.take(i as int) =~= ops@);
        }
        (self.counter.get(), success_count)
    }

    /// Name of the state machine's state.
    pub fn state_machine_state(&self) -> (r: &'static str)
        ensures
            r == (match self.state_machine.state {
                PortState::Idle => "idle",
                PortState::Processing => "processing",
                PortState::Error => "error",
            }),
    {
        match self.state_machine.current_state() {
            PortState::Idle => "idle",
            PortState::Processing => "processing",
            PortState::Error => "error",
        }
    }

    /// Counter to zero, machine idle with an empty log, no events.
    pub fn reset(&mut self)
        ensures
            final(self).counter.counter.value == 0,
            final(self).state_machine.state == PortState::Idle,
            final(self).state_machine.dispatcher.operations@.len() == 0,
            final(self).state_machine.last_error.is_none(),
            final(self).event_system.events@.len() == 0,
            final(self).event_system.timestamp_counter == old(self).event_system.timestamp_counter,
            final(self).event_system.max_events == old(self).event_system.max_events,
    {
        self.counter.reset();
        self.state_machine.reset();
        self.event_system.clear_events();
    }
}

} // verus!
