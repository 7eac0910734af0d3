//! Encoder/decoder pairs for terms and the record of their round trips.

use vstd::prelude::*;
use vstd::string::*;
use crate::term::{TermValue, Value, model, models};
use crate::text::append_decimal;

verus! {

/// Evidence of one round trip: the texts of the term before and after, and
/// the invariants checked.
#[derive(Debug, Clone)]
pub struct RoundtripProof {
    pub original: String,
    pub roundtrip: String,
    pub preserved: bool,
    pub invariants_held: Vec<bool>,
    pub proof_evidence: String,
}

impl RoundtripProof {
    pub fn new(original: &str, roundtrip: &str, preserved: bool) -> (r: RoundtripProof)
        ensures
            r.original@ == original@,
            r.roundtrip@ == roundtrip@,
            r.preserved == preserved,
            r.invariants_held@.len() == 0,
            r.proof_evidence@.len() == 0,
    {
        RoundtripProof {
            original: String::from_str(original),
            roundtrip: String::from_str(roundtrip),
            preserved,
            invariants_held: Vec::new(),
            proof_evidence: String::new(),
        }
    }

    pub fn add_invariant(&mut self, held: bool)
        ensures
            final(self).invariants_held@ == old(self).invariants_held@.push(held),
            final(self).preserved == old(self).preserved,
            final(self).original == old(self).original,
            final(self).roundtrip == old(self).roundtrip,
    {
        self.invariants_held.push(held);
    }

    pub fn set_evidence(&mut self, evidence: &str)
        ensures
            final(self).proof_evidence@ == evidence@,
            final(self).invariants_held == old(self).invariants_held,
            final(self).preserved == old(self).preserved,
            final(self).original == old(self).original,
            final(self).roundtrip == old(self).roundtrip,
    {
        self.proof_evidence = String::from_str(evidence);
    }

    /// Whether every invariant held; true when none was checked.
    pub fn all_invariants_held(&self) -> (r: bool)
        ensures
            r == forall|i: int| 0 <= i < self.invariants_held@.len() ==> #[trigger] self.invariants_held@[i],
    {
        let mut i: usize = 0;
        while i < self.invariants_held.len()
            invariant
                i <= self.invariants_held@.len(),
                forall|k: int| 0 <= k < i ==> #[trigger] self.invariants_held@[k],
            decreases self.invariants_held@.len() - i,
        {
            if !self.invariants_held[i] {
                return false;
            }
            i = i + 1;
        }
        true
    }

    /// Preserved, with every invariant held.
    pub fn valid(&self) -> (r: bool)
        ensures
            r == (self.preserved && forall|i: int|
                0 <= i < self.invariants_held@.len() ==> #[trigger] self.invariants_held@[i]),
    {
        self.preserved && self.all_invariants_held()
    }
}

/// The name of a term's kind.
pub open spec fn kind_name(v: Value) -> Seq<char> {
    match v {
        Value::Nil => "Nil"@,
        Value::SmallInt(_) => "SmallInt"@,
        Value::Atom(_) => "Atom"@,
        Value::Tuple(_) => "Tuple"@,
        Value::List(_) => "List"@,
        Value::Binary(_) => "Binary"@,
        Value::Float(_) => "Float"@,
        Value::Resource(_, _) => "Resource"@,
        Value::Invalid => "Invalid"@,
    }
}

/// The name of a term's kind.
pub fn kind_text(t: &TermValue) -> (r: &'static str)
    ensures
        r@ == kind_name(t@),
{
    match t {
        TermValue::Nil => "Nil",
        TermValue::SmallInt(_) => "SmallInt",
        TermValue::Atom(_) => "Atom",
        TermValue::Tuple(_) => "Tuple",
        TermValue::List(_) => "List",
        TermValue::Binary(_) => "Binary",
        TermValue::Float(_) => "Float",
        TermValue::Resource(_) => "Resource",
        TermValue::Invalid => "Invalid",
    }
}

/// Whether two terms have the same model.
pub fn term_eq(a: &TermValue, b: &TermValue) -> (r: bool)
    ensures
        r == (a@ == b@),
    decreases a,
{
    match (a, b) {
        (TermValue::Nil, TermValue::Nil) => true,
        (TermValue::Invalid, TermValue::Invalid) => true,
        (TermValue::SmallInt(x), TermValue::SmallInt(y)) => *x == *y,
        (TermValue::Atom(x), TermValue::Atom(y)) => x.0 == y.0,
        (TermValue::Float(x), TermValue::Float(y)) => *x == *y,
        (TermValue::Resource(x), TermValue::Resource(y)) => x.type_id == y.type_id && x.handle == y.handle,
        (TermValue::Binary(x), TermValue::Binary(y)) => {
            assert(a@ == Value::Binary(x@) && b@ == Value::Binary(y@));
            if x.len() != y.len() {
                assert(x@.len() != y@.len());
                return false;
            }
            let mut i: usize = 0;
            while i < x.len()
                invariant
                    x@.len() == y@.len(),
                    a@ == Value::Binary(x@),
                    b@ == Value::Binary(y@),
                    i <= x@.len(),
                    forall|k: int| 0 <= k < i ==> x@[k] == y@[k],
                decreases x@.len() - i,
            {
                if x[i] != y[i] {
                    assert(x@[i as int] != y@[i as int]);
                    return false;
                }
                i = i + 1;
            }
            assert(x@ =~= y@);
            true
        },
        (TermValue::Tuple(x), TermValue::Tuple(y)) => all_eq(x, y),
        (TermValue::List(x), TermValue::List(y)) => all_eq(x, y),
        _ => false,
    }
}

/// Whether two sequences of terms have the same models.
pub fn all_eq(a: &Vec<TermValue>, b: &Vec<TermValue>) -> (r: bool)
    ensures
        r == (models(a@) == models(b@)),
    decreases a,
{
    proof {
        crate::term::lemma_models(a@);
        crate::term::lemma_models(b@);
    }
    if a.len() != b.len() {
        return false;
    }
    let mut i: usize = 0;
    while i < a.len()
        invariant
            a@.len() == b@.len(),
            i <= a@.len(),
            models(a@).len() == a@.len(),
            models(b@).len() == b@.len(),
            forall|k: int| 0 <= k < a@.len() ==> #[trigger] models(a@)[k] == model(a@[k]),
            forall|k: int| 0 <= k < b@.len() ==> #[trigger] models(b@)[k] == model(b@[k]),
            forall|k: int| 0 <= k < i ==> models(a@)[k] == models(b@)[k],
        decreases a@.len() - i,
    {
        proof {
            assert(decreases_to!(*a => a@[i as int]));
        }
        if !term_eq(&a[i], &b[i]) {
            assert(models(a@)[i as int] != models(b@)[i as int]);
            return false;
        }
        i = i + 1;
    }
    assert(models(a@) =~= models(b@));
    true
}

/// What `check_structural_invariant` says of two terms.
pub open spec fn structurally_same(a: Value, b: Value) -> bool {
    match (a, b) {
        (Value::Nil, Value::Nil) => true,
        (Value::SmallInt(x), Value::SmallInt(y)) => x == y,
        (Value::Atom(x), Value::Atom(y)) => x == y,
        (Value::Tuple(x), Value::Tuple(y)) => x.len() == y.len(),
        (Value::Binary(x), Value::Binary(y)) => x.len() == y.len(),
        (Value::Float(x), Value::Float(y)) => x == y,
        _ => false,
    }
}

/// An encoder/decoder pair for terms, with the checks of its round trip.
pub trait TermMorphism {
    fn encode(&self, term: &TermValue) -> Result<Vec<u8>, String>;

    fn decode(&self, bytes: &[u8]) -> Result<TermValue, String>;

    /// Encodes and decodes `original`, and records whether the result is
    /// the same term, of the same structure, and valid.
    fn verify_roundtrip(&self, original: &TermValue) -> (r: Result<RoundtripProof, String>)
        ensures
            r matches Ok(p) ==> p.original@ == kind_name(original@) && p.invariants_held@.len() == 2,
    {
        let encoded = match self.encode(original) {
            Ok(e) => e,
            Err(e) => return Err(e),
        };
        let decoded = match self.decode(encoded.as_slice()) {
            Ok(d) => d,
            Err(e) => return Err(e),
        };
        let equal = match self.terms_equal(original, &decoded) {
            Ok(b) => b,
            Err(e) => return Err(e),
        };
        let mut proof = RoundtripProof::new(kind_text(original), kind_text(&decoded), equal);
        let structural = match self.check_structural_invariant(original, &decoded) {
            Ok(b) => b,
            Err(e) => return Err(e),
        };
        proof.add_invariant(structural);
        let semantic = match self.check_semantic_invariant(original, &decoded) {
            Ok(b) => b,
            Err(e) => return Err(e),
        };
        proof.add_invariant(semantic);
        let mut evidence = String::from_str("Encoded to ");
        append_decimal(&mut evidence, encoded.len() as u64);
        evidence.append(" bytes, decoded preserves structure");
        proof.set_evidence(evidence.as_str());
        Ok(proof)
    }

    /// Whether two terms are the same term.
    fn terms_equal(&self, t1: &TermValue, t2: &TermValue) -> (r: Result<bool, String>)
        ensures
            r matches Ok(b) && b == (t1@ == t2@),
    {
        Ok(term_eq(t1, t2))
    }

    /// Same kind, and the same value for scalars or the same length for
    /// tuples and binaries.
    fn check_structural_invariant(&self, original: &TermValue, decoded: &TermValue) -> (r: Result<
        bool,
        String,
    >)
        ensures
            r matches Ok(b) && b == structurally_same(original@, decoded@),
    {
        let same = match (original, decoded) {
            (TermValue::Nil, TermValue::Nil) => true,
            (TermValue::SmallInt(a), TermValue::SmallInt(b)) => *a == *b,
            (TermValue::Atom(a), TermValue::Atom(b)) => a.0 == b.0,
            (TermValue::Tuple(a), TermValue::Tuple(b)) => a.len() == b.len(),
            (TermValue::Binary(a), TermValue::Binary(b)) => a.len() == b.len(),
            (TermValue::Float(a), TermValue::Float(b)) => *a == *b,
            _ => false,
        };
        proof {
            match (original, decoded) {
                (TermValue::Tuple(a), TermValue::Tuple(b)) => {
                    crate::term::lemma_models(a@);
                    crate::term::lemma_models(b@);
                },
                _ => {},
            }
        }
        Ok(same)
    }

    /// Neither term is invalid.
    fn check_semantic_invariant(&self, original: &TermValue, decoded: &TermValue) -> (r: Result<
        bool,
        String,
    >)
        ensures
            r matches Ok(b) && b == (!(original@ is Invalid) && !(decoded@ is Invalid)),
    {
        let a = match original {
            TermValue::Invalid => false,
            _ => true,
        };
        let b = match decoded {
            TermValue::Invalid => false,
            _ => true,
        };
        Ok(a && b)
    }
}

/// The standard pair: a term encodes to the ASCII name of its kind, and
/// decoding reads the first byte only (`N` Nil, `I` the integer 0, `A` the
/// atom 0, anything else Invalid; no bytes decode to Nil).
pub struct StandardMorphism;

/// The ASCII bytes of the name of a term's kind.
pub open spec fn kind_bytes(v: Value) -> Seq<u8> {
    match v {
        Value::Nil => seq![78u8, 105u8, 108u8],
        Value::SmallInt(_) => seq![83u8, 109u8, 97u8, 108u8, 108u8, 73u8, 110u8, 116u8],
        Value::Atom(_) => seq![65u8, 116u8, 111u8, 109u8],
        Value::Tuple(_) => seq![84u8, 117u8, 112u8, 108u8, 101u8],
        Value::List(_) => seq![76u8, 105u8, 115u8, 116u8],
        Value::Binary(_) => seq![66u8, 105u8, 110u8, 97u8, 114u8, 121u8],
        Value::Float(_) => seq![70u8, 108u8, 111u8, 97u8, 116u8],
        Value::Resource(_, _) => seq![82u8, 101u8, 115u8, 111u8, 117u8, 114u8, 99u8, 101u8],
        Value::Invalid => seq![73u8, 110u8, 118u8, 97u8, 108u8, 105u8, 100u8],
    }
}

/// The ASCII bytes of the name of a term's kind.
fn kind_bytes_of(t: &TermValue) -> (r: Vec<u8>)
    ensures
        r@ == kind_bytes(t@),
{
    let v = match t {
        TermValue::Nil => vec![78u8, 105u8, 108u8],
        TermValue::SmallInt(_) => vec![83u8, 109u8, 97u8, 108u8, 108u8, 73u8, 110u8, 116u8],
        TermValue::Atom(_) => vec![65u8, 116u8, 111u8, 109u8],
        TermValue::Tuple(_) => vec![84u8, 117u8, 112u8, 108u8, 101u8],
        TermValue::List(_) => vec![76u8, 105u8, 115u8, 116u8],
        TermValue::Binary(_) => vec![66u8, 105u8, 110u8, 97u8, 114u8, 121u8],
        TermValue::Float(_) => vec![70u8, 108u8, 111u8, 97u8, 116u8],
        TermValue::Resource(_) => vec![82u8, 101u8, 115u8, 111u8, 117u8, 114u8, 99u8, 101u8],
        TermValue::Invalid => vec![73u8, 110u8, 118u8, 97u8, 108u8, 105u8, 100u8],
    };
    proof {
        assert(v@ =~= kind_bytes(t@));
    }
    v
}

impl TermMorphism for StandardMorphism {
    fn encode(&self, term: &TermValue) -> (r: Result<Vec<u8>, String>)
        ensures
            r matches Ok(b) && b@ == kind_bytes(term@),
    {
        Ok(kind_bytes_of(term))
    }

    fn decode(&self, bytes: &[u8]) -> (r: Result<TermValue, String>)
        ensures
            r matches Ok(t) && t@ == (if bytes@.len() == 0 {
                Value::Nil
            } else if bytes@[0] == 78 {
                Value::Nil
            } else if bytes@[0] == 73 {
                Value::SmallInt(0)
            } else if bytes@[0] == 65 {
                Value::Atom(0)
            } else {
                Value::Invalid
            }),
    {
        if bytes.len() == 0 {
            return Ok(TermValue::Nil);
        }
        let first = bytes[0];
        if first == 78 {
            Ok(TermValue::Nil)
        } else if first == 73 {
            Ok(TermValue::SmallInt(0))
        } else if first == 65 {
            Ok(TermValue::Atom(crate::atom_table::AtomIndex(0)))
        } else {
            Ok(TermValue::Invalid)
        }
    }
}

/// Checks morphisms on terms and keeps the valid round trips and the
/// failures.
pub struct MorphismValidator {
    pub morphisms: Vec<RoundtripProof>,
    pub total_checks: usize,
    pub failures: Vec<String>,
}

impl MorphismValidator {
    pub fn new() -> (r: MorphismValidator)
        ensures
            r.morphisms@.len() == 0,
            r.total_checks == 0,
            r.failures@.len() == 0,
    {
        MorphismValidator { morphisms: Vec::new(), total_checks: 0, failures: Vec::new() }
    }

    /// Runs the round trip of `term` through `morphism`: a valid proof is
    /// kept and gives `Ok(true)`; an invalid one or an error is recorded as
    /// a failure and returned as `Err`.
    pub fn check_morphism<T: TermMorphism>(&mut self, morphism: &T, term: &TermValue) -> (r: Result<
        bool,
        String,
    >)
        requires
            old(self).total_checks < usize::MAX,
        ensures
            final(self).total_checks == old(self).total_checks + 1,
            r is Ok ==> r == Ok::<bool, String>(true) && final(self).morphisms@.len() == old(self).morphisms@.len() + 1 && final(self).failures == old(self).failures,
            r matches Err(e) ==> final(self).morphisms == old(self).morphisms && final(self).failures@.len() == old(self).failures@.len() + 1 && final(self).failures@.last()@
                == e@,
    {
        self.total_checks = self.total_checks + 1;
        match morphism.verify_roundtrip(term) {
            Ok(proof) => {
                if proof.valid() {
                    self.morphisms.push(proof);
                    Ok(true)
                } else {
                    let mut msg = String::from_str("Morphism check failed for ");
                    msg.append(kind_text(term));
                    let copy = msg.clone();
                    self.failures.push(msg);
                    Err(copy)
                }
            },
            Err(e) => {
                let copy = e.clone();
                self.failures.push(e);
                Err(copy)
            },
        }
    }
}

} // verus!
