//! Detects contradictions between what the counter protocol promises and
//! what was observed.

use vstd::prelude::*;
use crate::message_dispatch::{MessageOp, apply_op, saturating_inc, saturating_dec};

verus! {

/// Kinds of broken invariant.
#[derive(Debug, Clone, Copy, PartialEq, Eq, Structural)]
pub enum ConflictKind {
    SequenceViolation,
    ArithmeticInvariant,
    OrderingViolation,
    ConsistencyViolation,
    TimingViolation,
}

/// Evidence of a broken invariant.
#[derive(Debug, Clone, Copy, PartialEq, Eq)]
pub struct Conflict {
    pub kind: ConflictKind,
    pub sequence: u32,
    pub operation: MessageOp,
    pub expected_result: i32,
    pub actual_result: i32,
    pub violation_detail: &'static str,
}

/// The value an operation must produce from `v`; none for an unknown one.
pub open spec fn expected_of(op: MessageOp, v: i32) -> Option<i32> {
    if op == MessageOp::Unknown {
        None
    } else {
        Some(apply_op(op, v).0)
    }
}

/// Whether repeating `op` must give the same result.
pub open spec fn idempotent(op: MessageOp) -> bool {
    op == MessageOp::Get || op == MessageOp::Reset
}

/// Whether `i` is the first position where `e` and `a` differ.
pub open spec fn first_mismatch(e: Seq<i32>, a: Seq<i32>, i: int) -> bool {
    &&& 0 <= i < e.len()
    &&& i < a.len()
    &&& e[i] != a[i]
    &&& forall|k: int| 0 <= k < i ==> e[k] == a[k]
}

/// Whether `e` and `a` differ somewhere in their common length.
pub open spec fn any_mismatch(e: Seq<i32>, a: Seq<i32>) -> bool {
    exists|i: int| 0 <= i < e.len() && i < a.len() && e[i] != a[i]
}

/// The conflict log.
pub struct ConflictDetector {
    pub conflicts: Vec<Conflict>,
    pub sequence: u32,
    pub last_operation: Option<MessageOp>,
    pub last_value: i32,
    pub invariant_checks_enabled: bool,
}

impl ConflictDetector {
    pub fn new() -> (r: ConflictDetector)
        ensures
            r.conflicts@.len() == 0,
            r.sequence == 0,
            r.last_operation.is_none(),
            r.last_value == 0,
            r.invariant_checks_enabled,
    {
        ConflictDetector {
            conflicts: Vec::new(),
            sequence: 0,
            last_operation: None,
            last_value: 0,
            invariant_checks_enabled: true,
        }
    }

    /// Numbers and logs a conflict, and returns it.
    fn record(
        &mut self,
        kind: ConflictKind,
        operation: MessageOp,
        expected_result: i32,
        actual_result: i32,
        violation_detail: &'static str,
    ) -> (r: Conflict)
        requires
            old(self).sequence < u32::MAX,
        ensures
            final(self).sequence == old(self).sequence + 1,
            r == (Conflict {
                kind,
                sequence: final(self).sequence,
                operation,
                expected_result,
                actual_result,
                violation_detail,
            }),
            final(self).conflicts@ == old(self).conflicts@.push(r),
            final(self).last_operation == old(self).last_operation,
            final(self).last_value == old(self).last_value,
            final(self).invariant_checks_enabled == old(self).invariant_checks_enabled,
    {
        self.sequence = self.sequence + 1;
        let conflict = Conflict {
            kind,
            sequence: self.sequence,
            operation,
            expected_result,
            actual_result,
            violation_detail,
        };
        self.conflicts.push(conflict);
        conflict
    }

    /// Checks that `op` took `current_value` to `result`. When checks are on,
    /// each call is numbered; a wrong result is logged and returned, a
    /// right one becomes the last observed operation and value.
    pub fn check_arithmetic_invariant(&mut self, op: MessageOp, current_value: i32, result: i32) -> (r:
        Option<Conflict>)
        requires
            old(self).sequence < u32::MAX,
        ensures
            !old(self).invariant_checks_enabled ==> r.is_none() && final(self).sequence == old(
                self,
            ).sequence && final(self).conflicts@ == old(self).conflicts@
                && final(self).last_operation == old(self).last_operation
                && final(self).last_value == old(self).last_value,
            old(self).invariant_checks_enabled ==> {
                &&& final(self).sequence == old(self).sequence + 1
                &&& match expected_of(op, current_value) {
                    None => r.is_none() && final(self).conflicts@ == old(self).conflicts@
                        && final(self).last_operation == old(self).last_operation
                        && final(self).last_value == old(self).last_value,
                    Some(e) => if e != result {
                        &&& r == Some(
                            Conflict {
                                kind: ConflictKind::ArithmeticInvariant,
                                sequence: final(self).sequence,
                                operation: op,
                                expected_result: e,
                                actual_result: result,
                                violation_detail: "Operation produced unexpected value",
                            },
                        )
                        &&& final(self).conflicts@ == old(self).conflicts@.push(r.unwrap())
                        &&& final(self).last_operation == old(self).last_operation
                        &&& final(self).last_value == old(self).last_value
                    } else {
                        &&& r.is_none()
                        &&& final(self).conflicts@ == old(self).conflicts@
                        &&& final(self).last_operation == Some(op)
                        &&& final(self).last_value == result
                    },
                }
            },
            final(self).invariant_checks_enabled == old(self).invariant_checks_enabled,
    {
        if !self.invariant_checks_enabled {
            return None;
        }
        let expected = match op {
            MessageOp::Inc => saturating_inc(current_value),
            MessageOp::Dec => saturating_dec(current_value),
            MessageOp::Get => current_value,
            MessageOp::Reset => 0,
            MessageOp::Unknown => {
                self.sequence = self.sequence + 1;
                return None;
            },
        };
        if result != expected {
            self.sequence = self.sequence + 1;
            self.conflicts.push(
                Conflict {
                    kind: ConflictKind::ArithmeticInvariant,
                    sequence: self.sequence,
                    operation: op,
                    expected_result: expected,
                    actual_result: result,
                    violation_detail: "Operation produced unexpected value",
                },
            );
            return Some(
                Conflict {
                    kind: ConflictKind::ArithmeticInvariant,
                    sequence: self.sequence,
                    operation: op,
                    expected_result: expected,
                    actual_result: result,
                    violation_detail: "Operation produced unexpected value",
                },
            );
        }
        self.sequence = self.sequence + 1;
        self.last_operation = Some(op);
        self.last_value = result;
        None
    }

    /// Checks that running the operations together gave what running them
    /// one after the other gives.
    pub fn check_ordering_invariant(
        &mut self,
        op1: MessageOp,
        op2: MessageOp,
        combined_result: i32,
        sequential_result: i32,
    ) -> (r: Option<Conflict>)
        requires
            old(self).sequence < u32::MAX,
        ensures
            old(self).invariant_checks_enabled && combined_result != sequential_result ==> {
                &&& r == Some(
                    Conflict {
                        kind: ConflictKind::OrderingViolation,
                        sequence: final(self).sequence,
                        operation: op1,
                        expected_result: sequential_result,
                        actual_result: combined_result,
                        violation_detail: "Operation ordering produces different results",
                    },
                )
                &&& final(self).sequence == old(self).sequence + 1
                &&& final(self).conflicts@ == old(self).conflicts@.push(r.unwrap())
            },
            !(old(self).invariant_checks_enabled && combined_result != sequential_result) ==> r.is_none()
                && final(self).sequence == old(self).sequence && final(self).conflicts@ == old(
                self,
            ).conflicts@,
            final(self).last_operation == old(self).last_operation,
            final(self).last_value == old(self).last_value,
            final(self).invariant_checks_enabled == old(self).invariant_checks_enabled,
    {
        if !self.invariant_checks_enabled {
            return None;
        }
        if combined_result != sequential_result {
            let c = self.record(
                ConflictKind::OrderingViolation,
                op1,
                sequential_result,
                combined_result,
                "Operation ordering produces different results",
            );
            return Some(c);
        }
        None
    }

    /// Checks that an idempotent operation (Get, Reset) gave the same result
    /// twice.
    pub fn check_idempotence(&mut self, op: MessageOp, initial: i32, once: i32, twice: i32) -> (r:
        Option<Conflict>)
        requires
            old(self).sequence < u32::MAX,
        ensures
            old(self).invariant_checks_enabled && idempotent(op) && once != twice ==> {
                &&& r == Some(
                    Conflict {
                        kind: ConflictKind::ConsistencyViolation,
                        sequence: final(self).sequence,
                        operation: op,
                        expected_result: once,
                        actual_result: twice,
                        violation_detail: "Idempotent operation produced different results on repetition",
                    },
                )
                &&& final(self).sequence == old(self).sequence + 1
                &&& final(self).conflicts@ == old(self).conflicts@.push(r.unwrap())
            },
            !(old(self).invariant_checks_enabled && idempotent(op) && once != twice) ==> r.is_none()
                && final(self).sequence == old(self).sequence && final(self).conflicts@ == old(
                self,
            ).conflicts@,
            final(self).last_operation == old(self).last_operation,
            final(self).last_value == old(self).last_value,
            final(self).invariant_checks_enabled == old(self).invariant_checks_enabled,
    {
        if !self.invariant_checks_enabled {
            return None;
        }
        let should_be_idempotent = match op {
            MessageOp::Get | MessageOp::Reset => true,
            _ => false,
        };
        if should_be_idempotent && once != twice {
            let c = self.record(
                ConflictKind::ConsistencyViolation,
                op,
                once,
                twice,
                "Idempotent operation produced different results on repetition",
            );
            return Some(c);
        }
        None
    }

    /// Compares expected and actual values position by position over their
    /// common length and reports the first difference.
    pub fn check_sequence_consistency(
        &mut self,
        operations: &[MessageOp],
        expected_sequences: &[i32],
        actual_sequences: &[i32],
    ) -> (r: Option<Conflict>)
        requires
            old(self).sequence < u32::MAX,
            forall|i: int|
                first_mismatch(expected_sequences@, actual_sequences@, i) ==> i
                    < operations@.len(),
        ensures
            old(self).invariant_checks_enabled && any_mismatch(
                expected_sequences@,
                actual_sequences@,
            ) ==> exists|i: int|
                #![trigger first_mismatch(expected_sequences@, actual_sequences@, i)]
                first_mismatch(expected_sequences@, actual_sequences@, i) && r == Some(
                    Conflict {
                        kind: ConflictKind::SequenceViolation,
                        sequence: final(self).sequence,
                        operation: operations@[i],
                        expected_result: expected_sequences@[i],
                        actual_result: actual_sequences@[i],
                        violation_detail: "Operation sequence produced inconsistent state",
                    },
                ) && final(self).sequence == old(self).sequence + 1 && final(self).conflicts@
                    == old(self).conflicts@.push(r.unwrap()),
            !(old(self).invariant_checks_enabled && any_mismatch(
                expected_sequences@,
                actual_sequences@,
            )) ==> r.is_none() && final(self).sequence == old(self).sequence
                && final(self).conflicts@ == old(self).conflicts@,
            final(self).last_operation == old(self).last_operation,
            final(self).last_value == old(self).last_value,
            final(self).invariant_checks_enabled == old(self).invariant_checks_enabled,
    {
        if !self.invariant_checks_enabled {
            return None;
        }
        let mut i: usize = 0;
        while i < expected_sequences.len() && i < actual_sequences.len()
            invariant
                i <= expected_sequences@.len(),
                i <= actual_sequences@.len(),
                forall|k: int| 0 <= k < i ==> expected_sequences@[k] == actual_sequences@[k],
                *self == *old(self),
                old(self).sequence < u32::MAX,
                old(self).invariant_checks_enabled,
                forall|j: int|
                    first_mismatch(expected_sequences@, actual_sequences@, j) ==> j
                        < operations@.len(),
            decreases expected_sequences@.len() - i,
        {
            let e = expected_sequences[i];
            let a = actual_sequences[i];
            if e != a {
                assert(first_mismatch(expected_sequences@, actual_sequences@, i as int));
                assert(any_mismatch(expected_sequences@, actual_sequences@));
                let c = self.record(
                    ConflictKind::SequenceViolation,
                    operations[i],
                    e,
                    a,
                    "Operation sequence produced inconsistent state",
                );
                return Some(c);
            }
            i = i + 1;
        }
        None
    }

    /// Checks that an operation took at most `max_time`.
    pub fn check_timing_bound(&mut self, op: MessageOp, actual_time: u64, max_time: u64) -> (r: Option<
        Conflict,
    >)
        requires
            old(self).sequence < u32::MAX,
        ensures
            old(self).invariant_checks_enabled && actual_time > max_time ==> {
                &&& r == Some(
                    Conflict {
                        kind: ConflictKind::TimingViolation,
                        sequence: final(self).sequence,
                        operation: op,
                        expected_result: max_time as i32,
                        actual_result: actual_time as i32,
                        violation_detail: "Operation exceeded timing bound",
                    },
                )
                &&& final(self).sequence == old(self).sequence + 1
                &&& final(self).conflicts@ == old(self).conflicts@.push(r.unwrap())
            },
            !(old(self).invariant_checks_enabled && actual_time > max_time) ==> r.is_none()
                && final(self).sequence == old(self).sequence && final(self).conflicts@ == old(
                self,
            ).conflicts@,
            final(self).last_operation == old(self).last_operation,
            final(self).last_value == old(self).last_value,
            final(self).invariant_checks_enabled == old(self).invariant_checks_enabled,
    {
        if !self.invariant_checks_enabled {
            return None;
        }
        if actual_time > max_time {
            let c = self.record(
                ConflictKind::TimingViolation,
                op,
                max_time as i32,
                actual_time as i32,
                "Operation exceeded timing bound",
            );
            return Some(c);
        }
        None
    }

    pub fn conflict_count(&self) -> (r: usize)
        ensures
            r == self.conflicts@.len(),
    {
        self.conflicts.len()
    }

    /// The conflicts of kind `kind`, in order.
    pub fn conflicts_by_kind(&self, kind: ConflictKind) -> (r: Vec<Conflict>)
        ensures
            r@ == self.conflicts@.filter(|c: Conflict| c.kind == kind),
    {
        let mut out: Vec<Conflict> = Vec::new();
        let mut i: usize = 0;
        while i < self.conflicts.len()
            invariant
                i <= self.conflicts@.len(),
                out@ == self.conflicts@.take(i as int).filter(|c: Conflict| c.kind == kind),
            decreases self.conflicts@.len() - i,
        {
            let c = self.conflicts[i];
            proof {
                assert(self.conflicts@.take(i + 1) =~= self.conflicts@.take(i as int).push(c));
                self.conflicts@.take(i as int).lemma_filter_push(c, |c: Conflict| c.kind == kind);
            }
            if c.kind == kind {
                out.push(c);
            }
            i = i + 1;
        }
        proof {
            assert(self.conflicts@.take(i as int) =~= self.conflicts@);
        }
        out
    }

    /// The newest conflict.
    pub fn latest_conflict(&self) -> (r: Option<Conflict>)
        ensures
            self.conflicts@.len() == 0 ==> r.is_none(),
            self.conflicts@.len() > 0 ==> r == Some(self.conflicts@.last()),
    {
        let n = self.conflicts.len();
        if n == 0 {
            None
        } else {
            Some(self.conflicts[n - 1])
        }
    }

    pub fn set_checking_enabled(&mut self, enabled: bool)
        ensures
            final(self).invariant_checks_enabled == enabled,
            final(self).conflicts@ == old(self).conflicts@,
            final(self).sequence == old(self).sequence,
            final(self).last_operation == old(self).last_operation,
            final(self).last_value == old(self).last_value,
    {
        self.invariant_checks_enabled = enabled;
    }

    /// Forgets the conflicts, the numbering and the last operation.
    pub fn reset(&mut self)
        ensures
            final(self).conflicts@.len() == 0,
            final(self).sequence == 0,
            final(self).last_operation.is_none(),
            final(self).last_value == old(self).last_value,
            final(self).invariant_checks_enabled == old(self).invariant_checks_enabled,
    {
        self.conflicts.clear();
        self.sequence = 0;
        self.last_operation = None;
    }

    /// The conflicts raised by operation `op`, in order.
    pub fn conflicts_with_operation(&self, op: MessageOp) -> (r: Vec<Conflict>)
        ensures
            r@ == self.conflicts@.filter(|c: Conflict| c.operation == op),
    {
        let mut out: Vec<Conflict> = Vec::new();
        let mut i: usize = 0;
        while i < self.conflicts.len()
            invariant
                i <= self.conflicts@.len(),
                out@ == self.conflicts@.take(i as int).filter(|c: Conflict| c.operation == op),
            decreases self.conflicts@.len() - i,
        {
            let c = self.conflicts[i];
            proof {
                assert(self.conflicts@.take(i + 1) =~= self.conflicts@.take(i as int).push(c));
                self.conflicts@.take(i as int).lemma_filter_push(c, |c: Conflict| c.operation == op);
            }
            if c.operation == op {
                out.push(c);
            }
            i = i + 1;
        }
        proof {
            assert(self.conflicts@.take(i as int) =~= self.conflicts@);
        }
        out
    }
}

} // verus!
