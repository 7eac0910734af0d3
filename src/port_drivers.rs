//! Port drivers: the per-port data of the echo, counter and buffer ports and
//! their message handlers.

use vstd::prelude::*;
use crate::message_dispatch::{sat_inc, sat_dec, saturating_inc, saturating_dec};

verus! {

/// A message delivered to a port.
#[derive(Debug)]
pub struct Message {
    pub data: Vec<u8>,
}

/// What a port does after handling a message.
#[derive(Debug, Clone, Copy, PartialEq, Eq, Structural)]
pub enum PortResult {
    Continue,
    Terminate,
}

/// Data of an echo port.
#[derive(Debug)]
pub struct EchoPortData {
    pub message_count: i32,
    pub last_message: String,
}

impl EchoPortData {
    pub fn new() -> (r: EchoPortData)
        ensures
            r.message_count == 0,
            r.last_message@.len() == 0,
    {
        EchoPortData { message_count: 0, last_message: String::new() }
    }

    /// Releases what the port holds when it closes.
    pub fn cleanup(&mut self)
        ensures
            final(self).message_count == old(self).message_count,
            final(self).last_message@ == old(self).last_message@,
    {
    }
}

/// Counts a message delivered to an echo port.
pub fn handle_echo_message(data: &mut EchoPortData, message: &Message) -> (r: PortResult)
    requires
        old(data).message_count < i32::MAX,
    ensures
        final(data).message_count == old(data).message_count + 1,
        final(data).last_message@ == old(data).last_message@,
        r == PortResult::Continue,
{
    data.message_count = data.message_count + 1;
    PortResult::Continue
}

/// The last operation a counter port performed.
#[derive(Debug, Clone, Copy, PartialEq, Eq, Structural)]
pub enum CounterOp {
    Idle,
    Increment,
    Decrement,
    Reset,
}

/// Data of a counter port.
#[derive(Debug, Clone, Copy, PartialEq, Eq, Structural)]
pub struct CounterPortData {
    pub counter: i32,
    pub last_op: CounterOp,
}

impl CounterPortData {
    pub fn new() -> (r: CounterPortData)
        ensures
            r == (CounterPortData { counter: 0, last_op: CounterOp::Idle }),
    {
        CounterPortData { counter: 0, last_op: CounterOp::Idle }
    }

    /// Adds one, held at `i32::MAX`.
    pub fn increment(&mut self)
        ensures
            *final(self) == (CounterPortData {
                counter: sat_inc(old(self).counter),
                last_op: CounterOp::Increment,
            }),
    {
        self.counter = saturating_inc(self.counter);
        self.last_op = CounterOp::Increment;
    }

    /// Subtracts one, held at `i32::MIN`.
    pub fn decrement(&mut self)
        ensures
            *final(self) == (CounterPortData {
                counter: sat_dec(old(self).counter),
                last_op: CounterOp::Decrement,
            }),
    {
        self.counter = saturating_dec(self.counter);
        self.last_op = CounterOp::Decrement;
    }

    pub fn reset(&mut self)
        ensures
            *final(self) == (CounterPortData { counter: 0, last_op: CounterOp::Reset }),
    {
        self.counter = 0;
        self.last_op = CounterOp::Reset;
    }

    /// Releases what the port holds when it closes: the counter is reset.
    pub fn cleanup(&mut self)
        ensures
            *final(self) == (CounterPortData { counter: 0, last_op: CounterOp::Reset }),
    {
        self.reset();
    }
}

/// A counter port leaves its state alone on a raw message.
pub fn handle_counter_message(data: &mut CounterPortData, message: &Message) -> (r: PortResult)
    ensures
        *final(data) == *old(data),
        r == PortResult::Continue,
{
    PortResult::Continue
}

/// Data of a buffer port: a stack of values.
#[derive(Debug)]
pub struct BufferPortData {
    pub buffer: Vec<i32>,
}

impl BufferPortData {
    pub fn new() -> (r: BufferPortData)
        ensures
            r.buffer@.len() == 0,
    {
        BufferPortData { buffer: Vec::new() }
    }

    pub fn push(&mut self, value: i32)
        ensures
            final(self).buffer@ == old(self).buffer@.push(value),
    {
        self.buffer.push(value);
    }

    /// Removes and returns the value pushed last.
    pub fn pop(&mut self) -> (r: Option<i32>)
        ensures
            old(self).buffer@.len() == 0 ==> r.is_none() && final(self).buffer@ == old(self).buffer@,
            old(self).buffer@.len() > 0 ==> r == Some(old(self).buffer@.last())
                && final(self).buffer@ == old(self).buffer@.drop_last(),
    {
        self.buffer.pop()
    }

    pub fn len(&self) -> (r: usize)
        ensures
            r == self.buffer@.len(),
    {
        self.buffer.len()
    }

    pub fn clear(&mut self)
        ensures
            final(self).buffer@.len() == 0,
    {
        self.buffer.clear();
    }

    /// Releases what the port holds when it closes: the buffer is emptied.
    pub fn cleanup(&mut self)
        ensures
            final(self).buffer@.len() == 0,
    {
        self.clear();
    }
}

/// A buffer port leaves its state alone on a raw message.
pub fn handle_buffer_message(data: &mut BufferPortData, message: &Message) -> (r: PortResult)
    ensures
        final(data).buffer@ == old(data).buffer@,
        r == PortResult::Continue,
{
    PortResult::Continue
}

} // verus!
