use avmnif::term::TermValue;
use avmnif::term_morphism::{MorphismValidator, RoundtripProof, StandardMorphism, TermMorphism};

#[test]
fn test_roundtrip_proof_creation() {
    let proof = RoundtripProof::new("original", "roundtrip", true);
    assert_eq!(proof.original, "original");
    assert!(proof.preserved);
}

#[test]
fn test_roundtrip_proof_invariants() {
    let mut proof = RoundtripProof::new("original", "roundtrip", true);
    proof.add_invariant(true);
    proof.add_invariant(true);

    assert!(proof.all_invariants_held());
}

#[test]
fn test_roundtrip_proof_invalid_when_not_preserved() {
    let proof = RoundtripProof::new("original", "different", false);
    assert!(!proof.valid());
}

#[test]
fn test_standard_morphism_nil() {
    let morphism = StandardMorphism;
    let term = TermValue::Nil;

    let encoded = morphism.encode(&term).unwrap();
    assert!(!encoded.is_empty());
}

#[test]
fn test_standard_morphism_int() {
    let morphism = StandardMorphism;
    let term = TermValue::integer(42);

    let encoded = morphism.encode(&term).unwrap();
    assert!(!encoded.is_empty());
}

#[test]
fn test_standard_morphism_roundtrip() {
    let morphism = StandardMorphism;
    let term = TermValue::Nil;

    let proof = morphism.verify_roundtrip(&term).unwrap();
    assert!(proof.all_invariants_held());
}

#[test]
fn test_morphism_validator_creation() {
    let validator = MorphismValidator::new();
    assert_eq!(validator.total_checks, 0);
}

#[test]
fn test_morphism_validator_check() {
    let mut validator = MorphismValidator::new();
    let morphism = StandardMorphism;
    let term = TermValue::Nil;

    let result = validator.check_morphism(&morphism, &term);
    assert!(result.is_ok());
    assert_eq!(validator.total_checks, 1);
}

#[test]
fn test_structural_invariant_nil() {
    let morphism = StandardMorphism;
    assert!(morphism
        .check_structural_invariant(&TermValue::Nil, &TermValue::Nil)
        .unwrap());
}

#[test]
fn test_structural_invariant_int() {
    let morphism = StandardMorphism;
    assert!(morphism
        .check_structural_invariant(&TermValue::integer(42), &TermValue::integer(42))
        .unwrap());
}

#[test]
fn test_semantic_invariant() {
    let morphism = StandardMorphism;
    assert!(morphism
        .check_semantic_invariant(&TermValue::Nil, &TermValue::Nil)
        .unwrap());
}

#[test]
fn standard_morphism_codes() {
    let m = StandardMorphism;
    assert_eq!(m.encode(&TermValue::integer(7)).unwrap(), b"SmallInt".to_vec());
    assert!(matches!(m.decode(b"Invalid").unwrap(), TermValue::SmallInt(0)));
    assert!(matches!(m.decode(b"").unwrap(), TermValue::Nil));
    assert!(matches!(m.decode(b"Tuple").unwrap(), TermValue::Invalid));
    let mut v = MorphismValidator::new();
    let err = v.check_morphism(&m, &TermValue::integer(7)).unwrap_err();
    assert_eq!(err, "Morphism check failed for SmallInt");
    assert_eq!(v.failures.len(), 1);
    let proof = m.verify_roundtrip(&TermValue::Nil).unwrap();
    assert!(proof.valid());
    assert_eq!(proof.proof_evidence, "Encoded to 3 bytes, decoded preserves structure");
}
