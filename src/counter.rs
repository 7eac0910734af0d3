//! The counter resource, a safe handle around it, checked arithmetic and a
//! builder for integer terms.

use vstd::prelude::*;
use crate::message_dispatch::{sat_inc, sat_dec, saturating_inc, saturating_dec};
use crate::term::{TermValue, Value, models};

verus! {

/// A counter resource.
#[derive(Debug, Clone, Copy, PartialEq, Eq, Structural)]
pub struct Counter {
    pub value: i32,
}

impl Counter {
    pub fn new(value: i32) -> (r: Counter)
        ensures
            r.value == value,
    {
        Counter { value }
    }

    /// Adds one, held at `i32::MAX`.
    pub fn increment(&mut self)
        ensures
            final(self).value == sat_inc(old(self).value),
    {
        self.value = saturating_inc(self.value);
    }

    /// Subtracts one, held at `i32::MIN`.
    pub fn decrement(&mut self)
        ensures
            final(self).value == sat_dec(old(self).value),
    {
        self.value = saturating_dec(self.value);
    }

    pub fn reset(&mut self)
        ensures
            final(self).value == 0,
    {
        self.value = 0;
    }

    pub fn get(&self) -> (r: i32)
        ensures
            r == self.value,
    {
        self.value
    }
}

/// An owned counter with operations that report the new value.
#[derive(Debug)]
pub struct SafeCounter {
    pub counter: Counter,
}

impl SafeCounter {
    pub fn new(value: i32) -> (r: SafeCounter)
        ensures
            r.counter.value == value,
    {
        SafeCounter { counter: Counter::new(value) }
    }

    pub fn get(&self) -> (r: i32)
        ensures
            r == self.counter.value,
    {
        self.counter.get()
    }

    /// Adds one, held at `i32::MAX`, and returns the new value.
    pub fn increment(&mut self) -> (r: i32)
        ensures
            final(self).counter.value == sat_inc(old(self).counter.value),
            r == final(self).counter.value,
    {
        self.counter.increment();
        self.counter.get()
    }

    /// Subtracts one, held at `i32::MIN`, and returns the new value.
    pub fn decrement(&mut self) -> (r: i32)
        ensures
            final(self).counter.value == sat_dec(old(self).counter.value),
            r == final(self).counter.value,
    {
        self.counter.decrement();
        self.counter.get()
    }

    /// Sets the counter to zero and returns zero.
    pub fn reset(&mut self) -> (r: i32)
        ensures
            final(self).counter.value == 0,
            r == 0,
    {
        self.counter.reset();
        0
    }
}

/// Failures of native functions.
#[derive(Debug, Clone, Copy, PartialEq, Eq, Structural)]
pub enum NifError {
    BadArg,
    OutOfMemory,
}

/// Whether an integer fits an `i32`.
pub open spec fn fits_i32(x: int) -> bool {
    i32::MIN <= x <= i32::MAX
}

/// Sum of a sequence.
pub open spec fn sum(s: Seq<i32>) -> int
    decreases s.len(),
{
    if s.len() == 0 {
        0
    } else {
        sum(s.drop_last()) + s.last()
    }
}

/// Whether every running sum of `s`, from the left, fits an `i32`.
pub open spec fn running_sums_fit(s: Seq<i32>) -> bool {
    forall|k: int| 0 <= k <= s.len() ==> fits_i32(#[trigger] sum(s.take(k)))
}

/// Checked arithmetic on `i32`.
pub struct SafeMath;

impl SafeMath {
    /// `a + b`, or `OutOfMemory` when it does not fit.
    pub fn add(a: i32, b: i32) -> (r: Result<i32, NifError>)
        ensures
            r == (if fits_i32(a + b) {
                Ok::<i32, NifError>((a + b) as i32)
            } else {
                Err(NifError::OutOfMemory)
            }),
    {
        match a.checked_add(b) {
            Some(v) => Ok(v),
            None => Err(NifError::OutOfMemory),
        }
    }

    /// `x * y`, or `OutOfMemory` when it does not fit.
    pub fn multiply(x: i32, y: i32) -> (r: Result<i32, NifError>)
        ensures
            r == (if fits_i32(x * y) {
                Ok::<i32, NifError>((x * y) as i32)
            } else {
                Err(NifError::OutOfMemory)
            }),
    {
        match x.checked_mul(y) {
            Some(v) => Ok(v),
            None => Err(NifError::OutOfMemory),
        }
    }

    /// Sum of the items added from the left, or `OutOfMemory` as soon as a
    /// running sum does not fit.
    pub fn list_sum(items: &[i32]) -> (r: Result<i32, NifError>)
        ensures
            r == (if running_sums_fit(items@) {
                Ok::<i32, NifError>(sum(items@) as i32)
            } else {
                Err(NifError::OutOfMemory)
            }),
    {
        let mut acc: i32 = 0;
        let mut i: usize = 0;
        proof {
            assert(items@.take(0) =~= Seq::<i32>::empty());
        }
        while i < items.len()
            invariant
                i <= items@.len(),
                acc == sum(items@.take(i as int)),
                forall|k: int| 0 <= k <= i ==> fits_i32(#[trigger] sum(items@.take(k))),
            decreases items@.len() - i,
        {
            proof {
                assert(items@.take(i + 1).drop_last() =~= items@.take(i as int));
            }
            match acc.checked_add(items[i]) {
                Some(v) => {
                    acc = v;
                },
                None => {
                    assert(!fits_i32(sum(items@.take(i + 1))));
                    return Err(NifError::OutOfMemory);
                },
            }
            i = i + 1;
        }
        proof {
            assert(items@.take(i as int) =~= items@);
        }
        Ok(acc)
    }

    /// Number of elements a tuple of `items` would turn into as a list.
    pub fn tuple_to_list_count(items: &[i32]) -> (r: usize)
        ensures
            r == items@.len(),
    {
        items.len()
    }
}

/// Small integer terms of a sequence of integers.
pub open spec fn int_values(s: Seq<i32>) -> Seq<Value> {
    s.map_values(|v: i32| Value::SmallInt(v as int))
}

/// Builds integer terms.
pub struct TermBuilder;

impl TermBuilder {
    pub fn integer(value: i32) -> (r: TermValue)
        ensures
            r@ == Value::SmallInt(value as int),
    {
        TermValue::integer(value)
    }

    pub fn empty_list() -> (r: TermValue)
        ensures
            r@ == Value::Nil,
    {
        TermValue::Nil
    }

    pub fn int_list(values: &[i32]) -> (r: TermValue)
        ensures
            r@ == Value::List(int_values(values@)),
    {
        TermValue::list(int_terms(values))
    }

    pub fn int_tuple(values: &[i32]) -> (r: TermValue)
        ensures
            r@ == Value::Tuple(int_values(values@)),
    {
        TermValue::tuple(int_terms(values))
    }
}

/// One small integer term per value.
fn int_terms(values: &[i32]) -> (r: Vec<TermValue>)
    ensures
        models(r@) == int_values(values@),
{
    let mut out: Vec<TermValue> = Vec::new();
    let mut i: usize = 0;
    proof {
        assert(models(out@) =~= int_values(values@.take(0)));
    }
    while i < values.len()
        invariant
            i <= values@.len(),
            models(out@) == int_values(values@.take(i as int)),
        decreases values@.len() - i,
    {
        let t = TermValue::integer(values[i]);
        proof {
            crate::term::lemma_models_push(out@, t);
            assert(int_values(values@.take(i + 1)) =~= int_values(values@.take(i as int)).push(
                Value::SmallInt(values@[i as int] as int),
            ));
        }
        out.push(t);
        i = i + 1;
    }
    proof {
        assert(values@.take(i as int) =~= values@);
    }
    out
}

} // verus!
