//! High-level commands run against the counter port system, with a history
//! and success statistics.

use vstd::prelude::*;
use crate::integration::{CounterPortSystem, step, failure_of};
use crate::message_dispatch::MessageOp;
use crate::port_state_machine::PortState;

verus! {

/// A command of the counter protocol.
#[derive(Debug, Clone, Copy, PartialEq, Eq, Structural)]
pub enum Command {
    Increment,
    Decrement,
    Get,
    Reset,
}

/// The operation a command stands for.
pub open spec fn op_of(c: Command) -> MessageOp {
    match c {
        Command::Increment => MessageOp::Inc,
        Command::Decrement => MessageOp::Dec,
        Command::Get => MessageOp::Get,
        Command::Reset => MessageOp::Reset,
    }
}

impl Command {
    pub fn to_operation(&self) -> (r: MessageOp)
        ensures
            r == op_of(*self),
    {
        match self {
            Command::Increment => MessageOp::Inc,
            Command::Decrement => MessageOp::Dec,
            Command::Get => MessageOp::Get,
            Command::Reset => MessageOp::Reset,
        }
    }
}

/// Outcome of one command.
#[derive(Debug, Clone, Copy, PartialEq, Eq)]
pub struct CommandResult {
    pub command: Command,
    pub success: bool,
    pub value: i32,
    pub error_message: Option<&'static str>,
}

impl CommandResult {
    pub fn ok(command: Command, value: i32) -> (r: CommandResult)
        ensures
            r == (CommandResult { command, success: true, value, error_message: None }),
    {
        CommandResult { command, success: true, value, error_message: None }
    }

    pub fn error(command: Command, message: &'static str) -> (r: CommandResult)
        ensures
            r == (CommandResult { command, success: false, value: 0, error_message: Some(message) }),
    {
        CommandResult { command, success: false, value: 0, error_message: Some(message) }
    }
}

/// A command of the history with its sequence number.
#[derive(Debug, Clone, Copy, PartialEq, Eq)]
pub struct CommandEntry {
    pub result: CommandResult,
    pub sequence: u32,
}

/// What running `c` against a machine in state `st` holding `v` reports.
pub open spec fn result_of(c: Command, st: PortState, v: i32) -> CommandResult {
    let (_, nv, ok) = step(st, v, op_of(c));
    if ok {
        CommandResult { command: c, success: true, value: nv, error_message: None }
    } else {
        CommandResult { command: c, success: false, value: 0, error_message: Some(failure_of(st)) }
    }
}

/// Runs commands and keeps their history.
pub struct CommandExecutor {
    pub system: CounterPortSystem,
    pub history: Vec<CommandEntry>,
    pub sequence: u32,
    pub success_count: u32,
    pub error_count: u32,
}

impl CommandExecutor {
    /// Every command counted has succeeded or failed.
    pub open spec fn wf(&self) -> bool {
        self.success_count + self.error_count == self.sequence
    }

    /// Room for `n` more commands.
    pub open spec fn has_room(&self, n: nat) -> bool {
        &&& self.sequence + n <= u32::MAX
        &&& self.system.event_system.timestamp_counter + n <= u64::MAX
    }

    pub fn new(initial_value: i32) -> (r: CommandExecutor)
        ensures
            r.wf(),
            r.system.counter.counter.value == initial_value,
            r.system.state_machine.state == PortState::Idle,
            r.system.event_system.timestamp_counter == 0,
            r.history@.len() == 0,
            r.sequence == 0,
            r.success_count == 0,
            r.error_count == 0,
    {
        CommandExecutor {
            system: CounterPortSystem::new(initial_value),
            history: Vec::new(),
            sequence: 0,
            success_count: 0,
            error_count: 0,
        }
    }

    /// Runs one command through the system and records it.
    pub fn execute(&mut self, cmd: Command) -> (r: CommandResult)
        requires
            old(self).wf(),
            old(self).has_room(1),
        ensures
            final(self).wf(),
            r == result_of(
                cmd,
                old(self).system.state_machine.state,
                old(self).system.counter.counter.value,
            ),
            ({
                let (st, v, _) = step(
                    old(self).system.state_machine.state,
                    old(self).system.counter.counter.value,
                    op_of(cmd),
                );
                &&& final(self).system.state_machine.state == st
                &&& final(self).system.counter.counter.value == v
            }),
            final(self).sequence == old(self).sequence + 1,
            final(self).success_count == old(self).success_count + if r.success {
                1int
            } else {
                0int
            },
            final(self).history@ == old(self).history@.push(
                CommandEntry { result: r, sequence: final(self).sequence },
            ),
            final(self).system.event_system.timestamp_counter == old(
                self,
            ).system.event_system.timestamp_counter + 1,
    {
        self.sequence = self.sequence + 1;
        let result = match self.system.process_operation(cmd.to_operation()) {
            Ok(value) => CommandResult::ok(cmd, value),
            Err(err) => CommandResult::error(cmd, err),
        };
        if result.success {
            self.success_count = self.success_count + 1;
        } else {
            self.error_count = self.error_count + 1;
        }
        let entry = CommandEntry { result, sequence: self.sequence };
        self.history.push(entry);
        result
    }

    /// Runs the commands in order and returns their results.
    pub fn execute_batch(&mut self, commands: &[Command]) -> (r: Vec<CommandResult>)
        requires
            old(self).wf(),
            old(self).has_room(commands@.len()),
        ensures
            final(self).wf(),
            r@.len() == commands@.len(),
            final(self).sequence == old(self).sequence + commands@.len(),
            final(self).history@.len() == old(self).history@.len() + commands@.len(),
            final(self).history@.take(old(self).history@.len() as int) == old(self).history@,
            forall|i: int|
                0 <= i < r@.len() ==> (#[trigger] r@[i]).command == commands@[i] && r@[i]
                    == final(self).history@[old(self).history@.len() + i].result,
    {
        let mut results: Vec<CommandResult> = Vec::new();
        let mut i: usize = 0;
        while i < commands.len()
            invariant
                self.wf(),
                i <= commands@.len(),
                results@.len() == i,
                self.sequence == old(self).sequence + i,
                self.system.event_system.timestamp_counter == old(
                    self,
                ).system.event_system.timestamp_counter + i,
                old(self).has_room(commands@.len()),
                self.history@.len() == old(self).history@.len() + i,
                self.history@.take(old(self).history@.len() as int) == old(self).history@,
                forall|k: int|
                    0 <= k < i ==> (#[trigger] results@[k]).command == commands@[k] && results@[k]
                        == self.history@[old(self).history@.len() + k].result,
            decreases commands@.len() - i,
        {
            let ghost h = self.history@;
            let res = self.execute(commands[i]);
            proof {
                assert(self.history@.take(old(self).history@.len() as int) =~= h.take(
                    old(self).history@.len() as int,
                ));
                assert forall|k: int| 0 <= k < i implies #[trigger] self.history@[old(
                    self,
                ).history@.len() + k] == h[old(self).history@.len() + k] by {}
            }
            results.push(res);
            i = i + 1;
        }
        results
    }

    pub fn current_value(&self) -> (r: i32)
        ensures
            r == self.system.counter.counter.value,
    {
        self.system.get_value()
    }

    /// (commands run, successes, failures)
    pub fn statistics(&self) -> (r: (u32, u32, u32))
        ensures
            r == (self.sequence, self.success_count, self.error_count),
    {
        (self.sequence, self.success_count, self.error_count)
    }

    pub fn history(&self) -> (r: &[CommandEntry])
        ensures
            r@ == self.history@,
    {
        self.history.as_slice()
    }

    /// Forgets the history and the statistics; the system keeps its state.
    pub fn clear_history(&mut self)
        ensures
            final(self).wf(),
            final(self).history@.len() == 0,
            final(self).sequence == 0,
            final(self).success_count == 0,
            final(self).error_count == 0,
            final(self).system == old(self).system,
    {
        self.history.clear();
        self.sequence = 0;
        self.success_count = 0;
        self.error_count = 0;
    }

    /// Percentage of the commands run that succeeded, rounded down; 0 when
    /// none was run.
    pub fn success_rate(&self) -> (r: u32)
        requires
            self.wf(),
        ensures
            self.sequence == 0 ==> r == 0,
            self.sequence > 0 ==> r as int == (self.success_count as int) * 100 / (
            self.sequence as int),
    {
        if self.sequence == 0 {
            0
        } else {
            let s = self.success_count as u64;
            let q = self.sequence as u64;
            let rate = (s * 100) / q;
            assert(rate <= 100) by (nonlinear_arith)
                requires
                    s <= q,
                    rate as int == (s as int * 100) / (q as int),
                    q > 0,
            ;
            rate as u32
        }
    }

    /// The entries of the history for commands equal to `cmd_type`, in order.
    pub fn commands_of_type(&self, cmd_type: Command) -> (r: Vec<CommandEntry>)
        ensures
            r@ == self.history@.filter(|e: CommandEntry| e.result.command == cmd_type),
    {
        let mut out: Vec<CommandEntry> = Vec::new();
        let mut i: usize = 0;
        while i < self.history.len()
            invariant
                i <= self.history@.len(),
                out@ == self.history@.take(i as int).filter(
                    |e: CommandEntry| e.result.command == cmd_type,
                ),
            decreases self.history@.len() - i,
        {
            let e = self.history[i];
            proof {
                assert(self.history@.take(i + 1) =~= self.history@.take(i as int).push(e));
                self.history@.take(i as int).lemma_filter_push(
                    e,
                    |e: CommandEntry| e.result.command == cmd_type,
                );
            }
            if e.result.command == cmd_type {
                out.push(e);
            }
            i = i + 1;
        }
        proof {
            assert(self.history@.take(i as int) =~= self.history@);
        }
        out
    }

    /// The last `count` entries of the history (all of it if shorter), in
    /// order.
    pub fn last_commands(&self, count: usize) -> (r: Vec<CommandEntry>)
        ensures
            r@ == self.history@.skip(
                self.history@.len() - (if count < self.history@.len() {
                    count as int
                } else {
                    self.history@.len() as int
                }),
            ),
    {
        let n = self.history.len();
        let start = if count < n {
            n - count
        } else {
            0
        };
        let mut out: Vec<CommandEntry> = Vec::new();
        let mut i: usize = start;
        while i < n
            invariant
                start <= i <= n,
                n == self.history@.len(),
                out@ == self.history@.subrange(start as int, i as int),
            decreases n - i,
        {
            out.push(self.history[i]);
            proof {
                assert(out@ =~= self.history@.subrange(start as int, i + 1));
            }
            i = i + 1;
        }
        proof {
            assert(out@ =~= self.history@.skip(start as int));
        }
        out
    }

    /// Resets the system, the history and the statistics.
    pub fn reset(&mut self)
        ensures
            final(self).wf(),
            final(self).system.counter.counter.value == 0,
            final(self).system.state_machine.state == PortState::Idle,
            final(self).system.event_system.timestamp_counter == old(
                self,
            ).system.event_system.timestamp_counter,
            final(self).history@.len() == 0,
            final(self).sequence == 0,
            final(self).success_count == 0,
            final(self).error_count == 0,
    {
        self.system.reset();
        self.history.clear();
        self.sequence = 0;
        self.success_count = 0;
        self.error_count = 0;
    }
}

} // verus!
