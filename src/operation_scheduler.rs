//! Schedules commands by priority and time and runs them through a command
//! executor.

use vstd::prelude::*;
use crate::command_executor::{Command, CommandExecutor, CommandResult};

verus! {

/// Scheduling priorities, lowest first.
#[derive(Debug, Clone, Copy, PartialEq, Eq, PartialOrd, Ord, Hash)]
pub enum Priority {
    Low,
    Normal,
    High,
    Critical,
}

/// Rank of a priority: higher runs first.
pub open spec fn rank(p: Priority) -> int {
    match p {
        Priority::Low => 0,
        Priority::Normal => 1,
        Priority::High => 2,
        Priority::Critical => 3,
    }
}

/// Whether `a` runs before `b`.
fn op_runs_before(a: &ScheduledOp, b: &ScheduledOp) -> (r: bool)
    ensures
        r == runs_before(*a, *b),
{
    let ra = priority_rank(a.priority);
    let rb = priority_rank(b.priority);
    ra > rb || (ra == rb && a.scheduled_time < b.scheduled_time)
}

fn priority_rank(p: Priority) -> (r: u8)
    ensures
        r == rank(p),
{
    match p {
        Priority::Low => 0,
        Priority::Normal => 1,
        Priority::High => 2,
        Priority::Critical => 3,
    }
}

/// A scheduled command.
#[derive(Debug, Clone, Copy, PartialEq, Eq)]
pub struct ScheduledOp {
    pub command: Command,
    pub priority: Priority,
    pub scheduled_time: u64,
    pub execution_time: Option<u64>,
    pub result: Option<CommandResult>,
}

impl ScheduledOp {
    pub fn new(command: Command, priority: Priority, scheduled_time: u64) -> (r: ScheduledOp)
        ensures
            r == (ScheduledOp {
                command,
                priority,
                scheduled_time,
                execution_time: None,
                result: None,
            }),
    {
        ScheduledOp { command, priority, scheduled_time, execution_time: None, result: None }
    }
}

/// Whether `a` runs before `b`: higher priority first, then earlier time.
pub open spec fn runs_before(a: ScheduledOp, b: ScheduledOp) -> bool {
    rank(a.priority) > rank(b.priority) || (rank(a.priority) == rank(b.priority)
        && a.scheduled_time < b.scheduled_time)
}

/// Whether a queue is in running order.
pub open spec fn in_order(q: Seq<ScheduledOp>) -> bool {
    forall|i: int, j: int| 0 <= i < j < q.len() ==> !runs_before(#[trigger] q[j], #[trigger] q[i])
}

/// Where a stable sort puts a command added at the end of an ordered queue:
/// after every command that does not run after it.
pub open spec fn insert_position(q: Seq<ScheduledOp>, op: ScheduledOp, pos: int) -> bool {
    &&& 0 <= pos <= q.len()
    &&& forall|k: int| 0 <= k < pos ==> !runs_before(op, #[trigger] q[k])
    &&& forall|k: int| pos <= k < q.len() ==> runs_before(op, #[trigger] q[k])
}

/// Runs scheduled commands.
pub struct OperationScheduler {
    pub executor: CommandExecutor,
    pub queue: Vec<ScheduledOp>,
    pub executed: Vec<ScheduledOp>,
    pub batch_size: usize,
    pub current_time: u64,
}

impl OperationScheduler {
    /// The queue is in running order and the executor is well formed.
    pub open spec fn wf(&self) -> bool {
        &&& in_order(self.queue@)
        &&& self.executor.wf()
    }

    pub fn new(initial_value: i32) -> (r: OperationScheduler)
        ensures
            r.wf(),
            r.executor.system.counter.counter.value == initial_value,
            r.executor.sequence == 0,
            r.executor.system.event_system.timestamp_counter == 0,
            r.queue@.len() == 0,
            r.executed@.len() == 0,
            r.batch_size == 10,
            r.current_time == 0,
    {
        OperationScheduler {
            executor: CommandExecutor::new(initial_value),
            queue: Vec::new(),
            executed: Vec::new(),
            batch_size: 10,
            current_time: 0,
        }
    }

    pub fn set_time(&mut self, time: u64)
        ensures
            final(self).current_time == time,
            final(self).queue == old(self).queue,
            final(self).executed == old(self).executed,
            final(self).executor == old(self).executor,
            final(self).batch_size == old(self).batch_size,
    {
        self.current_time = time;
    }

    /// Schedules `command` for now.
    pub fn schedule(&mut self, command: Command, priority: Priority)
        requires
            old(self).wf(),
        ensures
            final(self).wf(),
            exists|pos: int|
                insert_position(old(self).queue@, ScheduledOp::new_spec(command, priority, old(self).current_time), pos)
                    && final(self).queue@ == old(self).queue@.insert(
                    pos,
                    ScheduledOp::new_spec(command, priority, old(self).current_time),
                ),
            final(self).executed == old(self).executed,
            final(self).executor == old(self).executor,
            final(self).current_time == old(self).current_time,
    {
        self.schedule_at(command, priority, self.current_time);
    }

    /// Schedules `command` for `time`: it joins the queue after every
    /// command that runs before it or ties with it.
    pub fn schedule_at(&mut self, command: Command, priority: Priority, time: u64)
        requires
            old(self).wf(),
        ensures
            final(self).wf(),
            exists|pos: int|
                insert_position(old(self).queue@, ScheduledOp::new_spec(command, priority, time), pos)
                    && final(self).queue@ == old(self).queue@.insert(
                    pos,
                    ScheduledOp::new_spec(command, priority, time),
                ),
            final(self).executed == old(self).executed,
            final(self).executor == old(self).executor,
            final(self).current_time == old(self).current_time,
    {
        let op = ScheduledOp::new(command, priority, time);
        let mut pos: usize = 0;
        while pos < self.queue.len() && !op_runs_before(&op, &self.queue[pos])
            invariant
                pos <= self.queue@.len(),
                in_order(self.queue@),
                forall|k: int| 0 <= k < pos ==> !runs_before(op, #[trigger] self.queue@[k]),
            decreases self.queue@.len() - pos,
        {
            pos = pos + 1;
        }
        let ghost old_q = self.queue@;
        proof {
            assert forall|k: int| pos <= k < old_q.len() implies runs_before(op, #[trigger] old_q[k]) by {
                if k > pos {
                    assert(!runs_before(old_q[k], old_q[pos as int]));
                }
            }
        }
        self.queue.insert(pos, op);
        proof {
            let nq = self.queue@;
            assert forall|i: int, j: int| 0 <= i < j < nq.len() implies !runs_before(
                #[trigger] nq[j],
                #[trigger] nq[i],
            ) by {
                if i < pos && j < pos {
                    assert(nq[i] == old_q[i] && nq[j] == old_q[j]);
                } else if i < pos && j == pos {
                    assert(nq[i] == old_q[i]);
                } else if i < pos {
                    assert(nq[i] == old_q[i] && nq[j] == old_q[j - 1]);
                } else if i == pos {
                    assert(nq[j] == old_q[j - 1]);
                } else {
                    assert(nq[i] == old_q[i - 1] && nq[j] == old_q[j - 1]);
                }
            }
            assert(insert_position(old_q, op, pos as int));
        }
    }

    /// Runs every queued command whose time has come, in queue order, and
    /// takes them off the queue.
    pub fn execute_pending(&mut self) -> (r: Vec<CommandResult>)
        requires
            old(self).wf(),
            old(self).executor.has_room(old(self).queue@.len()),
        ensures
            final(self).wf(),
            ({
                let due = old(self).queue@.filter(|q: ScheduledOp| q.scheduled_time <= old(self).current_time);
                &&& r@.len() == due.len()
                &&& final(self).queue@ == old(self).queue@.filter(
                    |q: ScheduledOp| q.scheduled_time > old(self).current_time,
                )
                &&& final(self).executed@.len() == old(self).executed@.len() + due.len()
                &&& forall|i: int| 0 <= i < r@.len() ==> (#[trigger] r@[i]).command == due[i].command
            }),
            final(self).current_time == old(self).current_time,
    {
        let now = self.current_time;
        let ghost q0 = self.queue@;
        let mut due: Vec<ScheduledOp> = Vec::new();
        let mut rest: Vec<ScheduledOp> = Vec::new();
        let mut i: usize = 0;
        while i < self.queue.len()
            invariant
                i <= q0.len(),
                self.queue@ == q0,
                due@ == q0.take(i as int).filter(|q: ScheduledOp| q.scheduled_time <= now),
                rest@ == q0.take(i as int).filter(|q: ScheduledOp| q.scheduled_time > now),
                due@.len() <= i,
                forall|a: int, b: int|
                    0 <= a < b < rest@.len() ==> !runs_before(#[trigger] rest@[b], #[trigger] rest@[a]),
                forall|a: int| 0 <= a < rest@.len() ==> exists|k: int| 0 <= k < i && q0[k] == #[trigger] rest@[a],
                in_order(q0),
            decreases q0.len() - i,
        {
            let q = self.queue[i];
            proof {
                assert(q0.take(i + 1) =~= q0.take(i as int).push(q));
                q0.take(i as int).lemma_filter_push(q, |q: ScheduledOp| q.scheduled_time <= now);
                q0.take(i as int).lemma_filter_push(q, |q: ScheduledOp| q.scheduled_time > now);
            }
            if q.scheduled_time <= now {
                due.push(q);
            } else {
                let ghost before = rest@;
                rest.push(q);
                proof {
                    assert forall|a: int, b: int|
                        0 <= a < b < rest@.len() implies !runs_before(#[trigger] rest@[b], #[trigger] rest@[a]) by {
                        if b == rest@.len() - 1 {
                            let k = choose|k: int| 0 <= k < i && q0[k] == before[a];
                            assert(rest@[a] == before[a]);
                            assert(!runs_before(q0[i as int], q0[k]));
                        } else {
                            assert(rest@[a] == before[a] && rest@[b] == before[b]);
                        }
                    }
                    assert forall|a: int| 0 <= a < rest@.len() implies exists|k: int| 0 <= k < i + 1 && q0[k] == #[trigger] rest@[a] by {
                        if a == rest@.len() - 1 {
                            assert(q0[i as int] == rest@[a]);
                        } else {
                            assert(rest@[a] == before[a]);
                            let k = choose|k: int| 0 <= k < i && q0[k] == before[a];
                            assert(q0[k] == rest@[a]);
                        }
                    }
                }
            }
            i = i + 1;
        }
        proof {
            assert(q0.take(i as int) =~= q0);
        }
        let mut results: Vec<CommandResult> = Vec::new();
        let mut j: usize = 0;
        while j < due.len()
            invariant
                j <= due@.len(),
                due@.len() <= q0.len(),
                results@.len() == j,
                self.executor.wf(),
                self.executor.sequence + (due@.len() - j) <= u32::MAX,
                self.executor.system.event_system.timestamp_counter + (due@.len() - j) <= u64::MAX,
                self.executed@.len() == old(self).executed@.len() + j,
                self.current_time == now,
                forall|k: int| 0 <= k < j ==> (#[trigger] results@[k]).command == due@[k].command,
            decreases due@.len() - j,
        {
            let mut op = due[j];
            let result = self.executor.execute(op.command);
            op.execution_time = Some(now);
            op.result = Some(result);
            results.push(result);
            self.executed.push(op);
            j = j + 1;
        }
        self.queue = rest;
        results
    }

    /// Runs up to `count` commands from the front of the queue.
    pub fn execute_batch(&mut self, count: usize) -> (r: Vec<CommandResult>)
        requires
            old(self).wf(),
            old(self).executor.has_room(old(self).queue@.len()),
        ensures
            final(self).wf(),
            ({
                let n = if count < old(self).queue@.len() {
                    count as int
                } else {
                    old(self).queue@.len() as int
                };
                &&& r@.len() == n
                &&& final(self).queue@ == old(self).queue@.skip(n)
                &&& final(self).executed@.len() == old(self).executed@.len() + n
                &&& forall|i: int|
                    0 <= i < n ==> (#[trigger] r@[i]).command == old(self).queue@[i].command
            }),
            final(self).current_time == old(self).current_time,
    {
        let n = if count < self.queue.len() {
            count
        } else {
            self.queue.len()
        };
        let ghost q0 = self.queue@;
        let now = self.current_time;
        let mut results: Vec<CommandResult> = Vec::new();
        let mut j: usize = 0;
        while j < n
            invariant
                n <= q0.len(),
                j <= n,
                self.queue@ == q0,
                results@.len() == j,
                self.executor.wf(),
                self.executor.sequence + (n - j) <= u32::MAX,
                self.executor.system.event_system.timestamp_counter + (n - j) <= u64::MAX,
                self.executed@.len() == old(self).executed@.len() + j,
                self.current_time == now,
                forall|k: int| 0 <= k < j ==> (#[trigger] results@[k]).command == q0[k].command,
            decreases n - j,
        {
            let mut op = self.queue[j];
            let result = self.executor.execute(op.command);
            op.execution_time = Some(now);
            op.result = Some(result);
            results.push(result);
            self.executed.push(op);
            j = j + 1;
        }
        let mut rest: Vec<ScheduledOp> = Vec::new();
        let mut k: usize = n;
        while k < self.queue.len()
            invariant
                n <= k <= q0.len(),
                self.queue@ == q0,
                rest@ == q0.subrange(n as int, k as int),
            decreases q0.len() - k,
        {
            rest.push(self.queue[k]);
            proof {
                assert(rest@ =~= q0.subrange(n as int, k + 1));
            }
            k = k + 1;
        }
        proof {
            assert(rest@ =~= q0.skip(n as int));
            assert forall|a: int, b: int|
                0 <= a < b < rest@.len() implies !runs_before(#[trigger] rest@[b], #[trigger] rest@[a]) by {
                assert(rest@[a] == q0[a + n] && rest@[b] == q0[b + n]);
            }
        }
        self.queue = rest;
        results
    }

    pub fn queue_size(&self) -> (r: usize)
        ensures
            r == self.queue@.len(),
    {
        self.queue.len()
    }

    pub fn executed_count(&self) -> (r: usize)
        ensures
            r == self.executed@.len(),
    {
        self.executed.len()
    }

    pub fn current_value(&self) -> (r: i32)
        ensures
            r == self.executor.system.counter.counter.value,
    {
        self.executor.current_value()
    }

    /// (commands run by the executor, commands executed from the queue,
    /// successes)
    pub fn statistics(&self) -> (r: (usize, usize, u32))
        ensures
            r.0 == self.executor.sequence,
            r.1 == self.executed@.len(),
            r.2 == self.executor.success_count,
    {
        let (total, success, _error) = self.executor.statistics();
        (total as usize, self.executed.len(), success)
    }

    /// Sets the batch size; at least 1.
    pub fn set_batch_size(&mut self, size: usize)
        ensures
            final(self).batch_size == if size > 1 {
                size
            } else {
                1
            },
            final(self).queue == old(self).queue,
            final(self).executed == old(self).executed,
            final(self).executor == old(self).executor,
            final(self).current_time == old(self).current_time,
    {
        self.batch_size = if size > 1 {
            size
        } else {
            1
        };
    }

    /// The queued commands of priority `priority`, in queue order.
    pub fn pending_at_priority(&self, priority: Priority) -> (r: Vec<ScheduledOp>)
        ensures
            r@ == self.queue@.filter(|q: ScheduledOp| rank(q.priority) == rank(priority)),
    {
        let want = priority_rank(priority);
        let mut out: Vec<ScheduledOp> = Vec::new();
        let mut i: usize = 0;
        while i < self.queue.len()
            invariant
                i <= self.queue@.len(),
                want == rank(priority),
                out@ == self.queue@.take(i as int).filter(
                    |q: ScheduledOp| rank(q.priority) == rank(priority),
                ),
            decreases self.queue@.len() - i,
        {
            let q = self.queue[i];
            proof {
                assert(self.queue@.take(i + 1) =~= self.queue@.take(i as int).push(q));
                self.queue@.take(i as int).lemma_filter_push(
                    q,
                    |q: ScheduledOp| rank(q.priority) == rank(priority),
                );
            }
            if priority_rank(q.priority) == want {
                out.push(q);
            }
            i = i + 1;
        }
        proof {
            assert(self.queue@.take(i as int) =~= self.queue@);
        }
        out
    }

    /// The executed commands equal to `cmd_type`, in order of execution.
    pub fn executed_of_type(&self, cmd_type: Command) -> (r: Vec<ScheduledOp>)
        ensures
            r@ == self.executed@.filter(|q: ScheduledOp| q.command == cmd_type),
    {
        let mut out: Vec<ScheduledOp> = Vec::new();
        let mut i: usize = 0;
        while i < self.executed.len()
            invariant
                i <= self.executed@.len(),
                out@ == self.executed@.take(i as int).filter(|q: ScheduledOp| q.command == cmd_type),
            decreases self.executed@.len() - i,
        {
            let q = self.executed[i];
            proof {
                assert(self.executed@.take(i + 1) =~= self.executed@.take(i as int).push(q));
                self.executed@.take(i as int).lemma_filter_push(q, |q: ScheduledOp| q.command == cmd_type);
            }
            if q.command == cmd_type {
                out.push(q);
            }
            i = i + 1;
        }
        proof {
            assert(self.executed@.take(i as int) =~= self.executed@);
        }
        out
    }

    /// Takes every queued `command` off the queue and returns how many there
    /// were.
    pub fn cancel_pending(&mut self, command: Command) -> (r: usize)
        requires
            old(self).wf(),
        ensures
            final(self).wf(),
            final(self).queue@ == old(self).queue@.filter(|q: ScheduledOp| q.command != command),
            r == old(self).queue@.len() - final(self).queue@.len(),
            final(self).executed == old(self).executed,
            final(self).executor == old(self).executor,
            final(self).current_time == old(self).current_time,
    {
        let ghost q0 = self.queue@;
        let mut kept: Vec<ScheduledOp> = Vec::new();
        let mut i: usize = 0;
        while i < self.queue.len()
            invariant
                i <= q0.len(),
                self.queue@ == q0,
                kept@ == q0.take(i as int).filter(|q: ScheduledOp| q.command != command),
                kept@.len() <= i,
                forall|a: int, b: int|
                    0 <= a < b < kept@.len() ==> !runs_before(#[trigger] kept@[b], #[trigger] kept@[a]),
                forall|a: int| 0 <= a < kept@.len() ==> exists|k: int| 0 <= k < i && q0[k] == #[trigger] kept@[a],
                in_order(q0),
            decreases q0.len() - i,
        {
            let q = self.queue[i];
            proof {
                assert(q0.take(i + 1) =~= q0.take(i as int).push(q));
                q0.take(i as int).lemma_filter_push(q, |q: ScheduledOp| q.command != command);
            }
            if q.command != command {
                let ghost before = kept@;
                kept.push(q);
                proof {
                    assert forall|a: int, b: int|
                        0 <= a < b < kept@.len() implies !runs_before(#[trigger] kept@[b], #[trigger] kept@[a]) by {
                        if b == kept@.len() - 1 {
                            let k = choose|k: int| 0 <= k < i && q0[k] == before[a];
                            assert(kept@[a] == before[a]);
                            assert(!runs_before(q0[i as int], q0[k]));
                        } else {
                            assert(kept@[a] == before[a] && kept@[b] == before[b]);
                        }
                    }
                    assert forall|a: int| 0 <= a < kept@.len() implies exists|k: int| 0 <= k < i + 1 && q0[k] == #[trigger] kept@[a] by {
                        if a == kept@.len() - 1 {
                            assert(q0[i as int] == kept@[a]);
                        } else {
                            assert(kept@[a] == before[a]);
                            let k = choose|k: int| 0 <= k < i && q0[k] == before[a];
                            assert(q0[k] == kept@[a]);
                        }
                    }
                }
            }
            i = i + 1;
        }
        proof {
            assert(q0.take(i as int) =~= q0);
        }
        let n = self.queue.len();
        self.queue = kept;
        n - self.queue.len()
    }

    /// The first queued command whose time has come.
    pub fn next_executable(&self) -> (r: Option<ScheduledOp>)
        ensures
            r.is_none() ==> forall|k: int|
                0 <= k < self.queue@.len() ==> (#[trigger] self.queue@[k]).scheduled_time
                    > self.current_time,
            r.is_some() ==> exists|k: int|
                0 <= k < self.queue@.len() && r == Some(#[trigger] self.queue@[k])
                    && self.queue@[k].scheduled_time <= self.current_time && forall|j: int|
                    0 <= j < k ==> (#[trigger] self.queue@[j]).scheduled_time > self.current_time,
    {
        let mut i: usize = 0;
        while i < self.queue.len()
            invariant
                i <= self.queue@.len(),
                forall|j: int|
                    0 <= j < i ==> (#[trigger] self.queue@[j]).scheduled_time > self.current_time,
            decreases self.queue@.len() - i,
        {
            if self.queue[i].scheduled_time <= self.current_time {
                return Some(self.queue[i]);
            }
            i = i + 1;
        }
        None
    }

    /// Resets the executor, empties both queues and sets the time to 0.
    pub fn reset(&mut self)
        ensures
            final(self).wf(),
            final(self).queue@.len() == 0,
            final(self).executed@.len() == 0,
            final(self).current_time == 0,
            final(self).executor.sequence == 0,
            final(self).executor.system.counter.counter.value == 0,
            final(self).executor.system.event_system.timestamp_counter == old(
                self,
            ).executor.system.event_system.timestamp_counter,
            final(self).batch_size == old(self).batch_size,
    {
        self.executor.reset();
        self.queue.clear();
        self.executed.clear();
        self.current_time = 0;
    }
}

impl ScheduledOp {
    /// A command scheduled for `time`, not yet run.
    pub open spec fn new_spec(command: Command, priority: Priority, time: u64) -> ScheduledOp {
        ScheduledOp { command, priority, scheduled_time: time, execution_time: None, result: None }
    }
}

} // verus!
