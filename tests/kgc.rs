use avmnif::kgc::{Atomic, IdempotenceProof, KgcValidator, MergeMonoid, Observed, ProvenanceChain, ReconciliationLaws, ReconciliationOp, StandardReconciliation};

#[test]
fn test_observed_creation() {
    let obs = Observed::new(vec![1, 2, 3], "test");
    assert_eq!(obs.source(), "test");
    assert_eq!(obs.data(), &[1, 2, 3]);
}

#[test]
fn test_observed_hash() {
    let obs = Observed::new(vec![1, 2, 3], "test");
    let hash = obs.hash();
    assert_ne!(hash, 0);
}

#[test]
fn test_atomic_creation() {
    let atom = Atomic::new(vec![1, 2, 3]);
    assert_eq!(atom.data(), &[1, 2, 3]);
}

#[test]
fn test_atomic_with_provenance() {
    let atom = Atomic::new(vec![1, 2, 3]).with_provenance("test_prov");
    assert_eq!(atom.provenance(), "test_prov");
}

#[test]
fn test_standard_reconciliation_reconcile() {
    let recon = StandardReconciliation;
    let obs = Observed::new(vec![1, 2, 3], "test");
    let atomic = recon.reconcile(&obs).unwrap();

    assert_eq!(atomic.data(), &[1, 2, 3]);
}

#[test]
fn test_standard_reconciliation_idempotence() {
    let recon = StandardReconciliation;
    let obs = Observed::new(vec![1, 2, 3], "test");

    let idempotent = recon.prove_idempotent(&obs).unwrap();
    assert!(idempotent);
}

#[test]
fn test_standard_reconciliation_merge() {
    let recon = StandardReconciliation;
    let a1 = Atomic::new(vec![1, 2]);
    let a2 = Atomic::new(vec![3, 4]);

    let merged = recon.merge(&a1, &a2).unwrap();
    assert_eq!(merged.data(), &[1, 2, 3, 4]);
}

#[test]
fn test_idempotence_proof_holds() {
    let a1 = Atomic::new(vec![1, 2, 3]);
    let a2 = Atomic::new(vec![1, 2, 3]);

    let proof = IdempotenceProof::new(a1, a2);
    assert!(proof.holds);
}

#[test]
fn test_idempotence_proof_fails() {
    let a1 = Atomic::new(vec![1, 2, 3]);
    let a2 = Atomic::new(vec![1, 2, 3, 4]);

    let proof = IdempotenceProof::new(a1, a2);
    assert!(!proof.holds);
}

#[test]
fn test_merge_monoid_all_laws() {
    let monoid = MergeMonoid::new(true, true, true);
    assert!(monoid.all_laws_hold());
}

#[test]
fn test_provenance_chain_creation() {
    let chain = ProvenanceChain::new();
    assert_eq!(chain.steps().len(), 0);
}

#[test]
fn test_provenance_chain_add_step() {
    let mut chain = ProvenanceChain::new();
    chain.add_step("μ", 100, 200);

    assert_eq!(chain.steps().len(), 1);
}

#[test]
fn test_provenance_chain_verify() {
    let mut chain = ProvenanceChain::new();
    chain.add_step("μ", 100, 200);
    chain.add_step("⊕", 200, 300);

    assert!(chain.verify_chain());
}

#[test]
fn test_reconciliation_laws_all_hold() {
    let laws = ReconciliationLaws::new(true, MergeMonoid::new(true, true, true), true, true);
    assert!(laws.all_laws_hold());
}

#[test]
fn test_kgc_validator_creation() {
    let validator = KgcValidator::new(StandardReconciliation);
    assert_eq!(validator.idempotence_proofs.len(), 0);
}

#[test]
fn test_kgc_validator_idempotence() {
    let mut validator = KgcValidator::new(StandardReconciliation);
    let obs = Observed::new(vec![1, 2, 3], "test");

    let idempotent = validator.validate_idempotence(&obs).unwrap();
    assert!(idempotent);
}

#[test]
fn test_kgc_validator_provenance() {
    let mut validator = KgcValidator::new(StandardReconciliation);
    let obs = Observed::new(vec![1, 2, 3], "test");

    let valid = validator.validate_provenance(&obs).unwrap();
    assert!(valid);
}

#[test]
fn test_kgc_validator_report() {
    let validator = KgcValidator::new(StandardReconciliation);
    let report = validator.report();
    assert!(report.contains("KGC Calculus Validation Report"));
}
