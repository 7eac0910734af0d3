//! Counter operations and the dispatcher that applies them.

use vstd::prelude::*;
use crate::text::str_equal;
use crate::atom_table::AtomIndex;
use crate::term::{CodecError, MockHeap, Term, TermValue, Value, encode_outcome};

verus! {

/// An operation requested of a counter port.
#[derive(Debug, Clone, Copy, PartialEq, Eq, Structural)]
pub enum MessageOp {
    Inc,
    Dec,
    Get,
    Reset,
    Unknown,
}

/// `v + 1`, held at `i32::MAX`.
pub open spec fn sat_inc(v: i32) -> i32 {
    if v == i32::MAX { v } else { (v + 1) as i32 }
}

/// `v - 1`, held at `i32::MIN`.
pub open spec fn sat_dec(v: i32) -> i32 {
    if v == i32::MIN { v } else { (v - 1) as i32 }
}

/// The value an operation leaves a counter at, and whether the operation is
/// a recognized one.
pub open spec fn apply_op(op: MessageOp, v: i32) -> (i32, bool) {
    match op {
        MessageOp::Inc => (sat_inc(v), true),
        MessageOp::Dec => (sat_dec(v), true),
        MessageOp::Get => (v, true),
        MessageOp::Reset => (0, true),
        MessageOp::Unknown => (v, false),
    }
}

/// The operation an atom name stands for.
pub open spec fn op_of_name(name: Seq<char>) -> MessageOp {
    if name == "inc"@ {
        MessageOp::Inc
    } else if name == "dec"@ {
        MessageOp::Dec
    } else if name == "get"@ {
        MessageOp::Get
    } else if name == "reset"@ {
        MessageOp::Reset
    } else {
        MessageOp::Unknown
    }
}

/// Saturating increment.
pub fn saturating_inc(v: i32) -> (r: i32)
    ensures
        r == sat_inc(v),
{
    if v == i32::MAX { v } else { v + 1 }
}

/// Saturating decrement.
pub fn saturating_dec(v: i32) -> (r: i32)
    ensures
        r == sat_dec(v),
{
    if v == i32::MIN { v } else { v - 1 }
}

impl MessageOp {
    /// Parses an operation from its atom name; any other name is `Unknown`.
    pub fn from_atom_name(name: &str) -> (r: MessageOp)
        ensures
            r == op_of_name(name@),
    {
        if str_equal(name, "inc") {
            MessageOp::Inc
        } else if str_equal(name, "dec") {
            MessageOp::Dec
        } else if str_equal(name, "get") {
            MessageOp::Get
        } else if str_equal(name, "reset") {
            MessageOp::Reset
        } else {
            MessageOp::Unknown
        }
    }
}

/// Result of handling a message: a value and whether it succeeded.
#[derive(Debug, Clone, Copy, PartialEq, Eq, Structural)]
pub struct MessageResponse {
    pub value: i32,
    pub success: bool,
}

impl MessageResponse {
    pub fn ok(value: i32) -> (r: MessageResponse)
        ensures
            r == (MessageResponse { value, success: true }),
    {
        MessageResponse { value, success: true }
    }

    pub fn error() -> (r: MessageResponse)
        ensures
            r == (MessageResponse { value: 0, success: false }),
    {
        MessageResponse { value: 0, success: false }
    }

    /// Encodes the reply `(status, value)` onto the arena, where status is
    /// the atom `ok` (index 1) or `error` (index 2).
    pub fn to_term(&self, heap: &mut MockHeap) -> (r: Result<Term, CodecError>)
        requires
            old(heap).wf(),
        ensures
            final(heap).wf(),
            r == encode_outcome(old(heap).words@.len(), old(heap).capacity, reply_value(*self)),
    {
        let status = if self.success {
            AtomIndex(1)
        } else {
            AtomIndex(2)
        };
        let items = vec![TermValue::Atom(status), TermValue::SmallInt(self.value)];
        proof {
            crate::term::lemma_models(items@);
            assert(crate::term::models(items@) =~= seq![
                Value::Atom(status.0),
                Value::SmallInt(self.value as int),
            ]);
        }
        let reply = TermValue::tuple(items);
        Term::from_value(reply, heap)
    }
}

/// The reply term of a response.
pub open spec fn reply_value(m: MessageResponse) -> Value {
    Value::Tuple(
        seq![Value::Atom(if m.success { 1u32 } else { 2u32 }), Value::SmallInt(m.value as int)],
    )
}

/// Applies counter operations and logs each one with the value it produced.
pub struct MessageDispatcher {
    pub operations: Vec<(MessageOp, i32)>,
}

impl MessageDispatcher {
    pub fn new() -> (r: MessageDispatcher)
        ensures
            r.operations@ == Seq::<(MessageOp, i32)>::empty(),
    {
        MessageDispatcher { operations: Vec::new() }
    }

    /// Applies `op` to `current_value` with saturating arithmetic and logs it.
    /// Returns the new value and whether `op` was recognized.
    pub fn dispatch_counter(&mut self, op: MessageOp, current_value: i32) -> (r: (i32, bool))
        ensures
            r == apply_op(op, current_value),
            final(self).operations@ == old(self).operations@.push((op, r.0)),
    {
        let (new_value, success) = match op {
            MessageOp::Inc => (saturating_inc(current_value), true),
            MessageOp::Dec => (saturating_dec(current_value), true),
            MessageOp::Get => (current_value, true),
            MessageOp::Reset => (0i32, true),
            MessageOp::Unknown => (current_value, false),
        };
        self.operations.push((op, new_value));
        (new_value, success)
    }

    pub fn operation_count(&self) -> (r: usize)
        ensures
            r == self.operations@.len(),
    {
        self.operations.len()
    }

    pub fn clear_log(&mut self)
        ensures
            final(self).operations@ == Seq::<(MessageOp, i32)>::empty(),
    {
        self.operations.clear();
    }

    pub fn last_operation(&self) -> (r: Option<(MessageOp, i32)>)
        ensures
            self.operations@.len() == 0 ==> r.is_none(),
            self.operations@.len() > 0 ==> r == Some(self.operations@.last()),
    {
        let n = self.operations.len();
        if n == 0 {
            None
        } else {
            Some(self.operations[n - 1])
        }
    }
}

} // verus!

verus! {

/// Incrementing at the largest value and decrementing at the smallest leave
/// the value where it is, and both count as recognized operations.
pub proof fn lemma_saturation()
    ensures
        apply_op(MessageOp::Inc, i32::MAX) == (i32::MAX, true),
        apply_op(MessageOp::Dec, i32::MIN) == (i32::MIN, true),
        forall|v: i32| v < i32::MAX ==> #[trigger] apply_op(MessageOp::Inc, v).0 == v + 1,
        forall|v: i32| v > i32::MIN ==> #[trigger] apply_op(MessageOp::Dec, v).0 == v - 1,
{
}

} // verus!
