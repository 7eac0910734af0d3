//! Mapping errors between the native domain and the runtime's error atoms,
//! and checking that the mapping round-trips.

use vstd::prelude::*;
use vstd::string::*;
use crate::text::{str_equal, append_decimal};

verus! {

/// An error of the native domain.
#[derive(Debug, Clone, PartialEq, Eq)]
pub enum DomainError {
    BadArg,
    OutOfMemory,
    TypeError,
    Custom(String),
}

/// An error of the runtime's domain.
#[derive(Debug, Clone, PartialEq, Eq)]
pub enum ErlangError {
    Badarg,
    Enomem,
    Error(String),
    Custom(String),
}

/// The text of a native error.
pub open spec fn description_of(e: DomainError) -> Seq<char> {
    match e {
        DomainError::BadArg => "bad argument"@,
        DomainError::OutOfMemory => "out of memory"@,
        DomainError::TypeError => "type error"@,
        DomainError::Custom(s) => s@,
    }
}

/// The atom name of a runtime error.
pub open spec fn atom_name_of(e: ErlangError) -> Seq<char> {
    match e {
        ErlangError::Badarg => "badarg"@,
        ErlangError::Enomem => "enomem"@,
        ErlangError::Error(s) => s@,
        ErlangError::Custom(s) => s@,
    }
}

impl DomainError {
    pub fn description(&self) -> (r: &str)
        ensures
            r@ == description_of(*self),
    {
        match self {
            DomainError::BadArg => "bad argument",
            DomainError::OutOfMemory => "out of memory",
            DomainError::TypeError => "type error",
            DomainError::Custom(s) => s.as_str(),
        }
    }

    /// Equality of native errors, by kind and text.
    pub fn same_as(&self, other: &DomainError) -> (r: bool)
        ensures
            r == same_domain(*self, *other),
    {
        match (self, other) {
            (DomainError::BadArg, DomainError::BadArg) => true,
            (DomainError::OutOfMemory, DomainError::OutOfMemory) => true,
            (DomainError::TypeError, DomainError::TypeError) => true,
            (DomainError::Custom(a), DomainError::Custom(b)) => str_equal(a.as_str(), b.as_str()),
            _ => false,
        }
    }

    /// A copy of the error.
    pub fn copy(&self) -> (r: DomainError)
        ensures
            same_domain(r, *self),
    {
        match self {
            DomainError::BadArg => DomainError::BadArg,
            DomainError::OutOfMemory => DomainError::OutOfMemory,
            DomainError::TypeError => DomainError::TypeError,
            DomainError::Custom(s) => DomainError::Custom(s.clone()),
        }
    }
}

impl ErlangError {
    pub fn atom_name(&self) -> (r: &str)
        ensures
            r@ == atom_name_of(*self),
    {
        match self {
            ErlangError::Badarg => "badarg",
            ErlangError::Enomem => "enomem",
            ErlangError::Error(s) => s.as_str(),
            ErlangError::Custom(s) => s.as_str(),
        }
    }
}

/// Equality of native errors by kind and text.
pub open spec fn same_domain(a: DomainError, b: DomainError) -> bool {
    match (a, b) {
        (DomainError::BadArg, DomainError::BadArg) => true,
        (DomainError::OutOfMemory, DomainError::OutOfMemory) => true,
        (DomainError::TypeError, DomainError::TypeError) => true,
        (DomainError::Custom(x), DomainError::Custom(y)) => x@ == y@,
        _ => false,
    }
}

/// A two-way mapping of errors between the two domains.
pub trait ErrorMorphism {
    fn to_erlang(&self, err: &DomainError) -> ErlangError;

    fn to_rust(&self, err: &ErlangError) -> DomainError;

    /// Whether mapping `error` there and back gives it again.
    fn verify_morphism(&self, error: &DomainError) -> (r: Result<bool, String>)
        ensures
            r is Ok,
    {
        let erlang = self.to_erlang(error);
        let back = self.to_rust(&erlang);
        Ok(error.same_as(&back))
    }
}

/// The standard mapping: bad argument and out of memory map to their atoms,
/// a type error to the error text `type_error`, custom errors to custom
/// errors.
pub struct StandardErrorMorphism;

impl StandardErrorMorphism {
    /// The standard mapping round-trips every native error.
    pub fn round_trip(&self, err: &DomainError) -> (r: DomainError)
        ensures
            same_domain(r, *err),
    {
        let e = self.to_erlang(err);
        self.to_rust(&e)
    }
}

impl ErrorMorphism for StandardErrorMorphism {
    fn to_erlang(&self, err: &DomainError) -> (r: ErlangError)
        ensures
            match *err {
                DomainError::BadArg => r is Badarg,
                DomainError::OutOfMemory => r is Enomem,
                DomainError::TypeError => r matches ErlangError::Error(s) && s@ == "type_error"@,
                DomainError::Custom(s) => r matches ErlangError::Custom(t) && t@ == s@,
            },
    {
        match err {
            DomainError::BadArg => ErlangError::Badarg,
            DomainError::OutOfMemory => ErlangError::Enomem,
            DomainError::TypeError => ErlangError::Error(String::from_str("type_error")),
            DomainError::Custom(s) => ErlangError::Custom(s.clone()),
        }
    }

    fn to_rust(&self, err: &ErlangError) -> (r: DomainError)
        ensures
            match *err {
                ErlangError::Badarg => r is BadArg,
                ErlangError::Enomem => r is OutOfMemory,
                ErlangError::Error(s) => if s@ == "type_error"@ {
                    r is TypeError
                } else {
                    r matches DomainError::Custom(t) && t@ == s@
                },
                ErlangError::Custom(s) => r matches DomainError::Custom(t) && t@ == s@,
            },
    {
        match err {
            ErlangError::Badarg => DomainError::BadArg,
            ErlangError::Enomem => DomainError::OutOfMemory,
            ErlangError::Error(s) => {
                if str_equal(s.as_str(), "type_error") {
                    DomainError::TypeError
                } else {
                    DomainError::Custom(s.clone())
                }
            },
            ErlangError::Custom(s) => DomainError::Custom(s.clone()),
        }
    }
}

/// The key under which an error's check is recorded.
pub open spec fn key_of(e: DomainError) -> Seq<char> {
    match e {
        DomainError::BadArg => "BadArg"@,
        DomainError::OutOfMemory => "OutOfMemory"@,
        DomainError::TypeError => "TypeError"@,
        DomainError::Custom(s) => "Custom("@ + s@ + ")"@,
    }
}

fn error_key(e: &DomainError) -> (r: String)
    ensures
        r@ == key_of(*e),
{
    match e {
        DomainError::BadArg => String::from_str("BadArg"),
        DomainError::OutOfMemory => String::from_str("OutOfMemory"),
        DomainError::TypeError => String::from_str("TypeError"),
        DomainError::Custom(s) => {
            let mut k = String::from_str("Custom(");
            k.append(s.as_str());
            k.append(")");
            k
        },
    }
}

/// Records of error mappings: the last verdict per error, and the log of
/// stability runs.
#[derive(Debug, Clone)]
pub struct ErrorReconciliation {
    /// (error key, verdict), one entry per key in order of first check
    pub verified: Vec<(String, bool)>,
    pub total_checks: usize,
    pub stability_proof: Vec<String>,
}

/// Number of keys whose last verdict held.
pub open spec fn successes(v: Seq<(String, bool)>) -> nat {
    v.filter(|e: (String, bool)| e.1).len()
}

impl ErrorReconciliation {
    pub fn new() -> (r: ErrorReconciliation)
        ensures
            r.verified@.len() == 0,
            r.total_checks == 0,
            r.stability_proof@.len() == 0,
    {
        ErrorReconciliation { verified: Vec::new(), total_checks: 0, stability_proof: Vec::new() }
    }

    /// Records `valid` for `key`, replacing an earlier verdict.
    fn record(&mut self, key: String, valid: bool)
        ensures
            (exists|k: int|
                0 <= k < old(self).verified@.len() && (#[trigger] old(self).verified@[k]).0@ == key@
                    && final(self).verified@ == old(self).verified@.update(k, (key, valid)))
                || (final(self).verified@ == old(self).verified@.push((key, valid))),
            final(self).total_checks == old(self).total_checks,
            final(self).stability_proof == old(self).stability_proof,
    {
        let mut i: usize = 0;
        while i < self.verified.len()
            invariant
                i <= self.verified@.len(),
                *self == *old(self),
            decreases self.verified@.len() - i,
        {
            if str_equal(self.verified[i].0.as_str(), key.as_str()) {
                self.verified.set(i, (key, valid));
                return;
            }
            i = i + 1;
        }
        self.verified.push((key, valid));
    }

    /// Checks that `error` round-trips through `morphism` and records the
    /// verdict under the error's key.
    pub fn verify_error<M: ErrorMorphism>(&mut self, morphism: &M, error: &DomainError) -> (r: bool)
        requires
            old(self).total_checks < usize::MAX,
        ensures
            final(self).total_checks == old(self).total_checks + 1,
            (exists|k: int|
                0 <= k < old(self).verified@.len() && (#[trigger] old(self).verified@[k]).0@
                    == key_of(*error) && final(self).verified@ == old(self).verified@.update(
                    k,
                    (final(self).verified@[k].0, r),
                )) || (final(self).verified@.len() == old(self).verified@.len() + 1
                && final(self).verified@.drop_last() == old(self).verified@
                && final(self).verified@.last().0@ == key_of(*error) && final(
                self).verified@.last().1 == r),
            final(self).stability_proof == old(self).stability_proof,
    {
        self.total_checks = self.total_checks + 1;
        let valid = match morphism.verify_morphism(error) {
            Ok(v) => v,
            Err(_) => false,
        };
        let key = error_key(error);
        let ghost before = self.verified@;
        self.record(key, valid);
        proof {
            if self.verified@ != before.push((key, valid)) {
                let k = choose|k: int|
                    0 <= k < before.len() && (#[trigger] before[k]).0@ == key@
                        && self.verified@ == before.update(k, (key, valid));
                assert(self.verified@[k] == (key, valid));
            } else {
                assert(self.verified@.drop_last() =~= before);
            }
        }
        valid
    }

    /// Maps `error` there and back `num_hops` times, logging each hop, and
    /// stops at the first hop that does not give `error` back.
    pub fn test_error_stability<M: ErrorMorphism>(
        &mut self,
        morphism: &M,
        error: &DomainError,
        num_hops: u32,
    ) -> (r: bool)
        ensures
            final(self).verified == old(self).verified,
            final(self).total_checks == old(self).total_checks,
            final(self).stability_proof@.len() >= old(self).stability_proof@.len(),
            r ==> final(self).stability_proof@.len() == old(self).stability_proof@.len() + num_hops,
            !r ==> final(self).stability_proof@.len() <= old(self).stability_proof@.len() + num_hops,
    {
        let mut current = error.copy();
        let mut hop: u32 = 1;
        while hop <= num_hops
            invariant
                1 <= hop,
                hop <= num_hops + 1,
                self.verified == old(self).verified,
                self.total_checks == old(self).total_checks,
                self.stability_proof@.len() == old(self).stability_proof@.len() + hop - 1,
            decreases num_hops + 1 - hop,
        {
            let erlang = morphism.to_erlang(&current);
            current = morphism.to_rust(&erlang);
            let stable = current.same_as(error);
            let mut line = String::from_str("Hop ");
            append_decimal(&mut line, hop as u64);
            if stable {
                line.append(": stable");
            } else {
                line.append(": drift");
            }
            self.stability_proof.push(line);
            if !stable {
                return false;
            }
            if hop == u32::MAX {
                return true;
            }
            hop = hop + 1;
        }
        true
    }

    /// (keys whose last verdict held, keys checked)
    pub fn success_counts(&self) -> (r: (usize, usize))
        ensures
            r.0 == successes(self.verified@),
            r.1 == self.verified@.len(),
    {
        let mut count: usize = 0;
        let mut i: usize = 0;
        while i < self.verified.len()
            invariant
                i <= self.verified@.len(),
                count == successes(self.verified@.take(i as int)),
                count <= i,
            decreases self.verified@.len() - i,
        {
            proof {
                assert(self.verified@.take(i + 1) =~= self.verified@.take(i as int).push(
                    self.verified@[i as int],
                ));
                self.verified@.take(i as int).lemma_filter_push(
                    self.verified@[i as int],
                    |e: (String, bool)| e.1,
                );
            }
            if self.verified[i].1 {
                count = count + 1;
            }
            i = i + 1;
        }
        proof {
            assert(self.verified@.take(i as int) =~= self.verified@);
        }
        (count, self.verified.len())
    }
}

} // verus!
