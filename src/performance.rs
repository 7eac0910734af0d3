//! Cycle counts of counter operations.

use vstd::prelude::*;
use crate::message_dispatch::MessageOp;

verus! {

/// Cycle statistics of one operation.
#[derive(Debug, Clone, Copy, PartialEq, Eq, Structural)]
pub struct OperationMetrics {
    pub operation: MessageOp,
    pub count: usize,
    pub total_cycles: u64,
    pub min_cycles: u64,
    pub max_cycles: u64,
}

/// Cycles per second are counted against this many cycles.
pub const CYCLES_PER_SECOND: u64 = 1_000_000_000;

impl OperationMetrics {
    pub fn new(operation: MessageOp) -> (r: OperationMetrics)
        ensures
            r == fresh_metrics(operation),
    {
        OperationMetrics { operation, count: 0, total_cycles: 0, min_cycles: u64::MAX, max_cycles: 0 }
    }

    /// Counts one run that took `cycles`.
    pub fn record(&mut self, cycles: u64)
        requires
            old(self).count < usize::MAX,
            old(self).total_cycles + cycles <= u64::MAX,
        ensures
            *final(self) == (OperationMetrics {
                operation: old(self).operation,
                count: (old(self).count + 1) as usize,
                total_cycles: (old(self).total_cycles + cycles) as u64,
                min_cycles: if cycles < old(self).min_cycles {
                    cycles
                } else {
                    old(self).min_cycles
                },
                max_cycles: if cycles > old(self).max_cycles {
                    cycles
                } else {
                    old(self).max_cycles
                },
            }),
    {
        self.count = self.count + 1;
        self.total_cycles = self.total_cycles + cycles;
        if cycles < self.min_cycles {
            self.min_cycles = cycles;
        }
        if cycles > self.max_cycles {
            self.max_cycles = cycles;
        }
    }

    /// Mean cycles per run, rounded down; 0 before any run.
    pub fn average(&self) -> (r: u64)
        ensures
            r == (if self.count == 0 {
                0
            } else {
                self.total_cycles as int / self.count as int
            }),
    {
        if self.count == 0 {
            0
        } else {
            self.total_cycles / (self.count as u64)
        }
    }

    /// Runs per `CYCLES_PER_SECOND` cycles, rounded down; 0 before any cycle.
    pub fn throughput_per_second(&self) -> (r: u64)
        requires
            self.count * CYCLES_PER_SECOND <= u64::MAX,
        ensures
            r == (if self.total_cycles == 0 {
                0
            } else {
                (self.count * CYCLES_PER_SECOND) as int / self.total_cycles as int
            }),
    {
        if self.total_cycles == 0 {
            0
        } else {
            (self.count as u64 * CYCLES_PER_SECOND) / self.total_cycles
        }
    }
}

/// Cycle statistics of each counter operation.
pub struct PerformanceMonitor {
    pub inc_metrics: OperationMetrics,
    pub dec_metrics: OperationMetrics,
    pub get_metrics: OperationMetrics,
    pub reset_metrics: OperationMetrics,
    pub total_operations: usize,
}

/// The metrics a monitor keeps for `op`, if it keeps any.
pub open spec fn metrics_of(m: PerformanceMonitor, op: MessageOp) -> Option<OperationMetrics> {
    match op {
        MessageOp::Inc => Some(m.inc_metrics),
        MessageOp::Dec => Some(m.dec_metrics),
        MessageOp::Get => Some(m.get_metrics),
        MessageOp::Reset => Some(m.reset_metrics),
        MessageOp::Unknown => None,
    }
}

impl PerformanceMonitor {
    /// Sum of the cycles of all operations.
    pub open spec fn cycles_sum(&self) -> int {
        self.inc_metrics.total_cycles + self.dec_metrics.total_cycles + self.get_metrics.total_cycles
            + self.reset_metrics.total_cycles
    }

    /// The cycle sum fits a word and no operation was counted more often
    /// than operations were recorded.
    pub open spec fn wf(&self) -> bool {
        &&& self.cycles_sum() <= u64::MAX
        &&& self.inc_metrics.count + self.dec_metrics.count + self.get_metrics.count
            + self.reset_metrics.count <= self.total_operations
    }

    /// Room to record one more run of `cycles`.
    pub open spec fn can_record(&self, cycles: u64) -> bool {
        &&& self.cycles_sum() + cycles <= u64::MAX
        &&& self.total_operations < usize::MAX
    }

    pub fn new() -> (r: PerformanceMonitor)
        ensures
            r.wf(),
            r.total_operations == 0,
            r.inc_metrics == fresh_metrics(MessageOp::Inc),
            r.dec_metrics == fresh_metrics(MessageOp::Dec),
            r.get_metrics == fresh_metrics(MessageOp::Get),
            r.reset_metrics == fresh_metrics(MessageOp::Reset),
    {
        PerformanceMonitor {
            inc_metrics: OperationMetrics::new(MessageOp::Inc),
            dec_metrics: OperationMetrics::new(MessageOp::Dec),
            get_metrics: OperationMetrics::new(MessageOp::Get),
            reset_metrics: OperationMetrics::new(MessageOp::Reset),
            total_operations: 0,
        }
    }

    /// Counts a run of `op` that took `cycles`; an unknown operation is
    /// counted in the total only.
    pub fn record_operation(&mut self, op: MessageOp, cycles: u64)
        requires
            old(self).wf(),
            old(self).can_record(cycles),
        ensures
            final(self).wf(),
            final(self).total_operations == old(self).total_operations + 1,
            final(self).cycles_sum() == old(self).cycles_sum() + if op == MessageOp::Unknown {
                0
            } else {
                cycles as int
            },
            forall|o: MessageOp|
                o != op ==> #[trigger] metrics_of(*final(self), o) == metrics_of(*old(self), o),
            metrics_of(*old(self), op) matches Some(m) ==> metrics_of(*final(self), op) == Some(
                OperationMetrics {
                    count: (m.count + 1) as usize,
                    total_cycles: (m.total_cycles + cycles) as u64,
                    min_cycles: if cycles < m.min_cycles {
                        cycles
                    } else {
                        m.min_cycles
                    },
                    max_cycles: if cycles > m.max_cycles {
                        cycles
                    } else {
                        m.max_cycles
                    },
                    ..m
                },
            ),
    {
        match op {
            MessageOp::Inc => self.inc_metrics.record(cycles),
            MessageOp::Dec => self.dec_metrics.record(cycles),
            MessageOp::Get => self.get_metrics.record(cycles),
            MessageOp::Reset => self.reset_metrics.record(cycles),
            MessageOp::Unknown => {},
        }
        self.total_operations = self.total_operations + 1;
    }

    /// The metrics kept for `op`; none for an unknown operation.
    pub fn get_metrics(&self, op: MessageOp) -> (r: Option<&OperationMetrics>)
        ensures
            match metrics_of(*self, op) {
                Some(m) => r == Some(&m),
                None => r.is_none(),
            },
    {
        match op {
            MessageOp::Inc => Some(&self.inc_metrics),
            MessageOp::Dec => Some(&self.dec_metrics),
            MessageOp::Get => Some(&self.get_metrics),
            MessageOp::Reset => Some(&self.reset_metrics),
            MessageOp::Unknown => None,
        }
    }

    pub fn total_operations(&self) -> (r: usize)
        ensures
            r == self.total_operations,
    {
        self.total_operations
    }

    /// Mean cycles over all recorded operations, rounded down; 0 before any.
    pub fn average_cycles(&self) -> (r: u64)
        requires
            self.wf(),
        ensures
            r == (if self.total_operations == 0 {
                0
            } else {
                self.cycles_sum() / self.total_operations as int
            }),
    {
        if self.total_operations == 0 {
            0
        } else {
            let total = self.inc_metrics.total_cycles + self.dec_metrics.total_cycles
                + self.get_metrics.total_cycles + self.reset_metrics.total_cycles;
            total / (self.total_operations as u64)
        }
    }

    /// The operation with the smallest positive average, with that average;
    /// the first of Inc, Dec, Get, Reset wins a tie. `(Unknown, 0)` when no
    /// operation has a positive average.
    pub fn fastest_operation(&self) -> (r: (MessageOp, u64))
        ensures
            r == fastest_of(
                seq![
                    (MessageOp::Inc, avg_of(self.inc_metrics)),
                    (MessageOp::Dec, avg_of(self.dec_metrics)),
                    (MessageOp::Get, avg_of(self.get_metrics)),
                    (MessageOp::Reset, avg_of(self.reset_metrics)),
                ],
            ),
    {
        let ops = [
            (MessageOp::Inc, self.inc_metrics.average()),
            (MessageOp::Dec, self.dec_metrics.average()),
            (MessageOp::Get, self.get_metrics.average()),
            (MessageOp::Reset, self.reset_metrics.average()),
        ];
        let ghost cands = seq![
            (MessageOp::Inc, avg_of(self.inc_metrics)),
            (MessageOp::Dec, avg_of(self.dec_metrics)),
            (MessageOp::Get, avg_of(self.get_metrics)),
            (MessageOp::Reset, avg_of(self.reset_metrics)),
        ];
        proof {
            assert(ops@ =~= cands);
            assert(cands.take(0) =~= Seq::<(MessageOp, u64)>::empty());
        }
        let mut best: (MessageOp, u64) = (MessageOp::Unknown, 0);
        let mut i: usize = 0;
        while i < 4
            invariant
                i <= 4,
                ops@ == cands,
                cands.len() == 4,
                best == fastest_of(cands.take(i as int)),
            decreases 4 - i,
        {
            let (op, avg) = ops[i];
            proof {
                assert(cands.take(i + 1).drop_last() =~= cands.take(i as int));
            }
            if avg > 0 && (best.1 == 0 || avg < best.1) {
                best = (op, avg);
            }
            i = i + 1;
        }
        proof {
            assert(cands.take(4) =~= cands);
        }
        best
    }

    /// All metrics back to their initial values.
    pub fn reset(&mut self)
        ensures
            final(self).wf(),
            final(self).total_operations == 0,
            final(self).inc_metrics == fresh_metrics(MessageOp::Inc),
            final(self).dec_metrics == fresh_metrics(MessageOp::Dec),
            final(self).get_metrics == fresh_metrics(MessageOp::Get),
            final(self).reset_metrics == fresh_metrics(MessageOp::Reset),
    {
        self.inc_metrics = OperationMetrics::new(MessageOp::Inc);
        self.dec_metrics = OperationMetrics::new(MessageOp::Dec);
        self.get_metrics = OperationMetrics::new(MessageOp::Get);
        self.reset_metrics = OperationMetrics::new(MessageOp::Reset);
        self.total_operations = 0;
    }
}

/// Metrics of an operation not yet run.
pub open spec fn fresh_metrics(operation: MessageOp) -> OperationMetrics {
    OperationMetrics { operation, count: 0, total_cycles: 0, min_cycles: u64::MAX, max_cycles: 0 }
}

/// Mean cycles per run of a metrics record, as `average` computes it.
pub open spec fn avg_of(m: OperationMetrics) -> u64 {
    if m.count == 0 {
        0
    } else {
        (m.total_cycles as int / m.count as int) as u64
    }
}

/// The candidate with the smallest positive average, earliest first;
/// `(Unknown, 0)` when none is positive.
pub open spec fn fastest_of(c: Seq<(MessageOp, u64)>) -> (MessageOp, u64)
    decreases c.len(),
{
    if c.len() == 0 {
        (MessageOp::Unknown, 0)
    } else {
        let best = fastest_of(c.drop_last());
        let (op, avg) = c.last();
        if avg > 0 && (best.1 == 0 || avg < best.1) {
            (op, avg)
        } else {
            best
        }
    }
}

} // verus!
