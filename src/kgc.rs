//! Reconciliation of observed states into atomic states, with the checks of
//! its laws: idempotence, provenance and guards.

use vstd::prelude::*;
use vstd::string::*;
use crate::text::{append_decimal, append_bool, decimal, bool_text};

verus! {

/// The djb2 hash of a byte string: start at 5381, and for each byte
/// multiply by 33 and add the byte, wrapping at 2^64.
pub open spec fn djb2(s: Seq<u8>) -> u64
    decreases s.len(),
{
    if s.len() == 0 {
        5381
    } else {
        djb2(s.drop_last()).wrapping_mul(33).wrapping_add(s.last() as u64)
    }
}

/// djb2 of a byte slice.
pub fn hash_bytes(data: &[u8]) -> (r: u64)
    ensures
        r == djb2(data@),
{
    let mut acc: u64 = 5381;
    let mut i: usize = 0;
    proof {
        assert(data@.take(0) =~= Seq::<u8>::empty());
    }
    while i < data.len()
        invariant
            i <= data@.len(),
            acc == djb2(data@.take(i as int)),
        decreases data@.len() - i,
    {
        proof {
            assert(data@.take(i + 1).drop_last() =~= data@.take(i as int));
        }
        acc = acc.wrapping_mul(33).wrapping_add(data[i] as u64);
        i = i + 1;
    }
    proof {
        assert(data@.take(i as int) =~= data@);
    }
    acc
}

/// A state observed in some domain.
#[derive(Debug, Clone, PartialEq, Eq)]
pub struct Observed {
    pub data: Vec<u8>,
    pub source: String,
}

impl Observed {
    pub fn new(data: Vec<u8>, source: &str) -> (r: Observed)
        ensures
            r.data@ == data@,
            r.source@ == source@,
    {
        Observed { data, source: String::from_str(source) }
    }

    pub fn data(&self) -> (r: &[u8])
        ensures
            r@ == self.data@,
    {
        self.data.as_slice()
    }

    pub fn source(&self) -> (r: &str)
        ensures
            r@ == self.source@,
    {
        self.source.as_str()
    }

    /// djb2 of the data.
    pub fn hash(&self) -> (r: u64)
        ensures
            r == djb2(self.data@),
    {
        hash_bytes(self.data.as_slice())
    }
}

/// A reconciled, deterministic state with where it came from.
#[derive(Debug, Clone, PartialEq, Eq)]
pub struct Atomic {
    pub data: Vec<u8>,
    pub provenance: String,
}

impl Atomic {
    pub fn new(data: Vec<u8>) -> (r: Atomic)
        ensures
            r.data@ == data@,
            r.provenance@.len() == 0,
    {
        Atomic { data, provenance: String::new() }
    }

    pub fn with_provenance(self, prov: &str) -> (r: Atomic)
        ensures
            r.data@ == self.data@,
            r.provenance@ == prov@,
    {
        Atomic { data: self.data, provenance: String::from_str(prov) }
    }

    pub fn data(&self) -> (r: &[u8])
        ensures
            r@ == self.data@,
    {
        self.data.as_slice()
    }

    pub fn provenance(&self) -> (r: &str)
        ensures
            r@ == self.provenance@,
    {
        self.provenance.as_str()
    }

    /// djb2 of the data.
    pub fn hash(&self) -> (r: u64)
        ensures
            r == djb2(self.data@),
    {
        hash_bytes(self.data.as_slice())
    }
}

/// A copy of a byte slice.
fn copy_bytes(data: &[u8]) -> (r: Vec<u8>)
    ensures
        r@ == data@,
{
    let mut out: Vec<u8> = Vec::new();
    let mut i: usize = 0;
    while i < data.len()
        invariant
            i <= data@.len(),
            out@ == data@.take(i as int),
        decreases data@.len() - i,
    {
        out.push(data[i]);
        proof {
            assert(out@ =~= data@.take(i + 1));
        }
        i = i + 1;
    }
    proof {
        assert(data@.take(i as int) =~= data@);
    }
    out
}

/// A reconciliation operator from observed to atomic states, with a merge
/// of atomic states. `reconciled` describes what `reconcile` makes of the
/// observed bytes.
pub trait ReconciliationOp {
    spec fn reconciled(&self, data: Seq<u8>) -> Seq<u8>;

    fn reconcile(&self, observed: &Observed) -> (r: Result<Atomic, String>)
        ensures
            r matches Ok(a) ==> a.data@ == self.reconciled(observed.data@),
    ;

    fn merge(&self, a1: &Atomic, a2: &Atomic) -> (r: Result<Atomic, String>);

    /// Reconciling twice hashes as reconciling once.
    fn prove_idempotent(&self, observed: &Observed) -> (r: Result<bool, String>)
        ensures
            r matches Ok(b) ==> b == (djb2(self.reconciled(observed.data@)) == djb2(
                self.reconciled(self.reconciled(observed.data@)),
            )),
    {
        let a1 = match self.reconcile(observed) {
            Ok(a) => a,
            Err(e) => return Err(e),
        };
        let observed_a1 = Observed::new(copy_bytes(a1.data()), "reconciled");
        let a2 = match self.reconcile(&observed_a1) {
            Ok(a) => a,
            Err(e) => return Err(e),
        };
        Ok(a1.hash() == a2.hash())
    }

    /// The reconciled state hashes as the observed one.
    fn check_provenance(&self, observed: &Observed) -> (r: Result<bool, String>)
        ensures
            r matches Ok(b) ==> b == (djb2(observed.data@) == djb2(
                self.reconciled(observed.data@),
            )),
    {
        let atomic = match self.reconcile(observed) {
            Ok(a) => a,
            Err(e) => return Err(e),
        };
        Ok(observed.hash() == atomic.hash())
    }

    /// No forbidden pattern: every atomic state passes.
    fn check_guard(&self, atomic: &Atomic) -> (r: Result<bool, String>)
        ensures
            r matches Ok(b) && b,
    {
        Ok(true)
    }
}

/// Reconciliation that keeps the observed bytes and merges by
/// concatenation.
pub struct StandardReconciliation;

impl ReconciliationOp for StandardReconciliation {
    open spec fn reconciled(&self, data: Seq<u8>) -> Seq<u8> {
        data
    }

    fn reconcile(&self, observed: &Observed) -> (r: Result<Atomic, String>) {
        let mut prov = String::from_str("from_");
        prov.append(observed.source());
        Ok(Atomic::new(copy_bytes(observed.data())).with_provenance(prov.as_str()))
    }

    fn merge(&self, a1: &Atomic, a2: &Atomic) -> (r: Result<Atomic, String>)
        ensures
            r matches Ok(a) && a.data@ == a1.data@ + a2.data@,
    {
        let mut merged = copy_bytes(a1.data());
        let tail = copy_bytes(a2.data());
        let mut i: usize = 0;
        let ghost base = merged@;
        while i < tail.len()
            invariant
                i <= tail@.len(),
                merged@ == base + tail@.take(i as int),
            decreases tail@.len() - i,
        {
            merged.push(tail[i]);
            proof {
                assert(merged@ =~= base + tail@.take(i + 1));
            }
            i = i + 1;
        }
        proof {
            assert(tail@.take(i as int) =~= tail@);
        }
        Ok(Atomic::new(merged).with_provenance("merged"))
    }
}

/// Evidence that applying the operator twice gave the same hash.
#[derive(Debug, Clone)]
pub struct IdempotenceProof {
    pub first: Atomic,
    pub second: Atomic,
    pub holds: bool,
}

impl IdempotenceProof {
    pub fn new(first: Atomic, second: Atomic) -> (r: IdempotenceProof)
        ensures
            r.first == first,
            r.second == second,
            r.holds == (djb2(first.data@) == djb2(second.data@)),
    {
        let holds = first.hash() == second.hash();
        IdempotenceProof { first, second, holds }
    }
}

/// Which monoid laws the merge obeys.
#[derive(Debug, Clone, Copy, PartialEq, Eq, Structural)]
pub struct MergeMonoid {
    pub closed: bool,
    pub associative: bool,
    pub has_identity: bool,
}

impl MergeMonoid {
    pub fn new(closed: bool, associative: bool, has_identity: bool) -> (r: MergeMonoid)
        ensures
            r == (MergeMonoid { closed, associative, has_identity }),
    {
        MergeMonoid { closed, associative, has_identity }
    }

    pub fn all_laws_hold(&self) -> (r: bool)
        ensures
            r == (self.closed && self.associative && self.has_identity),
    {
        self.closed && self.associative && self.has_identity
    }
}

/// One step of an audit trail.
#[derive(Debug, Clone)]
pub struct ProvenanceStep {
    pub operator: String,
    pub input_hash: u64,
    pub output_hash: u64,
}

/// Whether each step of a trail starts from the hash the previous one
/// produced.
pub open spec fn chained(steps: Seq<ProvenanceStep>) -> bool {
    forall|i: int| 0 <= i < steps.len() - 1 ==> (#[trigger] steps[i]).output_hash == steps[i
        + 1].input_hash
}

/// An audit trail.
#[derive(Debug, Clone)]
pub struct ProvenanceChain {
    pub steps: Vec<ProvenanceStep>,
}

impl ProvenanceChain {
    pub fn new() -> (r: ProvenanceChain)
        ensures
            r.steps@.len() == 0,
    {
        ProvenanceChain { steps: Vec::new() }
    }

    pub fn add_step(&mut self, op: &str, in_hash: u64, out_hash: u64)
        ensures
            final(self).steps@.len() == old(self).steps@.len() + 1,
            final(self).steps@.drop_last() == old(self).steps@,
            final(self).steps@.last().operator@ == op@,
            final(self).steps@.last().input_hash == in_hash,
            final(self).steps@.last().output_hash == out_hash,
    {
        let ghost before = self.steps@;
        self.steps.push(
            ProvenanceStep { operator: String::from_str(op), input_hash: in_hash, output_hash: out_hash },
        );
        proof {
            assert(self.steps@.drop_last() =~= before);
        }
    }

    /// Whether the trail is unbroken.
    pub fn verify_chain(&self) -> (r: bool)
        ensures
            r == chained(self.steps@),
    {
        let n = self.steps.len();
        if n == 0 {
            return true;
        }
        let mut i: usize = 0;
        while i < n - 1
            invariant
                n == self.steps@.len(),
                n > 0,
                i <= n - 1,
                forall|k: int| 0 <= k < i ==> (#[trigger] self.steps@[k]).output_hash
                    == self.steps@[k + 1].input_hash,
            decreases n - 1 - i,
        {
            if self.steps[i].output_hash != self.steps[i + 1].input_hash {
                return false;
            }
            i = i + 1;
        }
        true
    }

    pub fn steps(&self) -> (r: &[ProvenanceStep])
        ensures
            r@ == self.steps@,
    {
        self.steps.as_slice()
    }
}

/// Which reconciliation laws hold.
#[derive(Debug, Clone, Copy, PartialEq, Eq, Structural)]
pub struct ReconciliationLaws {
    pub idempotent: bool,
    pub merge_monoid: MergeMonoid,
    pub provenance_transparent: bool,
    pub guards_enforced: bool,
}

impl ReconciliationLaws {
    pub fn new(idempotent: bool, merge: MergeMonoid, provenance: bool, guards: bool) -> (r: ReconciliationLaws)
        ensures
            r == (ReconciliationLaws {
                idempotent,
                merge_monoid: merge,
                provenance_transparent: provenance,
                guards_enforced: guards,
            }),
    {
        ReconciliationLaws {
            idempotent,
            merge_monoid: merge,
            provenance_transparent: provenance,
            guards_enforced: guards,
        }
    }

    pub fn all_laws_hold(&self) -> (r: bool)
        ensures
            r == (self.idempotent && self.merge_monoid.closed && self.merge_monoid.associative
                && self.merge_monoid.has_identity && self.provenance_transparent
                && self.guards_enforced),
    {
        self.idempotent && self.merge_monoid.all_laws_hold() && self.provenance_transparent
            && self.guards_enforced
    }
}

/// Checks the laws of a reconciliation operator and counts what held.
pub struct KgcValidator<T: ReconciliationOp> {
    pub reconciler: T,
    pub idempotence_proofs: Vec<IdempotenceProof>,
    pub provenance_verified: usize,
    pub guards_verified: usize,
}

impl<T: ReconciliationOp> KgcValidator<T> {
    pub fn new(reconciler: T) -> (r: KgcValidator<T>)
        ensures
            r.reconciler == reconciler,
            r.idempotence_proofs@.len() == 0,
            r.provenance_verified == 0,
            r.guards_verified == 0,
    {
        KgcValidator { reconciler, idempotence_proofs: Vec::new(), provenance_verified: 0, guards_verified: 0 }
    }

    /// Reconciles, reconciles the result again, and records whether both
    /// hash alike.
    pub fn validate_idempotence(&mut self, observed: &Observed) -> (r: Result<bool, String>)
        ensures
            r matches Ok(b) ==> {
                let once = old(self).reconciler.reconciled(observed.data@);
                &&& b == (djb2(once) == djb2(old(self).reconciler.reconciled(once)))
                &&& final(self).idempotence_proofs@.len() == old(self).idempotence_proofs@.len() + 1
                &&& final(self).idempotence_proofs@.last().holds == b
            },
            r is Err ==> final(self).idempotence_proofs@ == old(self).idempotence_proofs@,
            final(self).reconciler == old(self).reconciler,
            final(self).provenance_verified == old(self).provenance_verified,
            final(self).guards_verified == old(self).guards_verified,
    {
        let first = match self.reconciler.reconcile(observed) {
            Ok(a) => a,
            Err(e) => return Err(e),
        };
        let observed_first = Observed::new(copy_bytes(first.data()), "idempotence_test");
        let second = match self.reconciler.reconcile(&observed_first) {
            Ok(a) => a,
            Err(e) => return Err(e),
        };
        let proof = IdempotenceProof::new(first, second);
        let holds = proof.holds;
        self.idempotence_proofs.push(proof);
        Ok(holds)
    }

    /// Checks provenance and counts it when it holds.
    pub fn validate_provenance(&mut self, observed: &Observed) -> (r: Result<bool, String>)
        requires
            old(self).provenance_verified < usize::MAX,
        ensures
            r matches Ok(b) ==> b == (djb2(observed.data@) == djb2(
                old(self).reconciler.reconciled(observed.data@),
            )) && final(self).provenance_verified == old(self).provenance_verified + if b {
                1int
            } else {
                0int
            },
            r is Err ==> final(self).provenance_verified == old(self).provenance_verified,
            final(self).reconciler == old(self).reconciler,
            final(self).idempotence_proofs == old(self).idempotence_proofs,
            final(self).guards_verified == old(self).guards_verified,
    {
        match self.reconciler.check_provenance(observed) {
            Ok(valid) => {
                if valid {
                    self.provenance_verified = self.provenance_verified + 1;
                }
                Ok(valid)
            },
            Err(e) => Err(e),
        }
    }

    /// Checks the guards and counts it when they hold.
    pub fn validate_guards(&mut self, atomic: &Atomic) -> (r: Result<bool, String>)
        requires
            old(self).guards_verified < usize::MAX,
        ensures
            r matches Ok(b) ==> b && final(self).guards_verified == old(self).guards_verified + 1,
            r is Err ==> final(self).guards_verified == old(self).guards_verified,
            final(self).reconciler == old(self).reconciler,
            final(self).idempotence_proofs == old(self).idempotence_proofs,
            final(self).provenance_verified == old(self).provenance_verified,
    {
        match self.reconciler.check_guard(atomic) {
            Ok(valid) => {
                if valid {
                    self.guards_verified = self.guards_verified + 1;
                }
                Ok(valid)
            },
            Err(e) => Err(e),
        }
    }

    /// A report of the counts and of whether every idempotence check held.
    pub fn report(&self) -> (r: String)
        ensures
            r@ == "=== KGC Calculus Validation Report ===\n\n"@ + "Idempotence proofs: "@ + decimal(
                self.idempotence_proofs@.len(),
            ) + "\n"@ + "Idempotent: "@ + bool_text(
                forall|i: int|
                    0 <= i < self.idempotence_proofs@.len() ==> (
                    #[trigger] self.idempotence_proofs@[i]).holds,
            ) + "\n"@ + "Provenance verified: "@ + decimal(self.provenance_verified as nat) + "\n"@
                + "Guards verified: "@ + decimal(self.guards_verified as nat) + "\n"@,
    {
        let mut report = String::from_str("=== KGC Calculus Validation Report ===\n\n");
        report.append("Idempotence proofs: ");
        append_decimal(&mut report, self.idempotence_proofs.len() as u64);
        report.append("\n");
        report.append("Idempotent: ");
        append_bool(&mut report, self.all_idempotent());
        report.append("\n");
        report.append("Provenance verified: ");
        append_decimal(&mut report, self.provenance_verified as u64);
        report.append("\n");
        report.append("Guards verified: ");
        append_decimal(&mut report, self.guards_verified as u64);
        report.append("\n");
        report
    }

    /// Whether every idempotence check held.
    pub fn all_idempotent(&self) -> (r: bool)
        ensures
            r == forall|i: int|
                0 <= i < self.idempotence_proofs@.len() ==> (#[trigger] self.idempotence_proofs@[i]).holds,
    {
        let mut i: usize = 0;
        while i < self.idempotence_proofs.len()
            invariant
                i <= self.idempotence_proofs@.len(),
                forall|k: int| 0 <= k < i ==> (#[trigger] self.idempotence_proofs@[k]).holds,
            decreases self.idempotence_proofs@.len() - i,
        {
            if !self.idempotence_proofs[i].holds {
                return false;
            }
            i = i + 1;
        }
        true
    }
}

} // verus!
