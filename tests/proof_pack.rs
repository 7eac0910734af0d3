use avmnif::proof_pack::{ProofPack, ThesisClaim, VerificationStatus};

#[test]
fn test_verification_status_symbols() {
    assert_eq!(VerificationStatus::Proposed.symbol(), "○");
    assert_eq!(VerificationStatus::Green.symbol(), "✓");
    assert_eq!(VerificationStatus::Crossed.symbol(), "✗");
}

#[test]
fn test_thesis_claim_creation() {
    let claim = ThesisClaim::new("C1", "Test statement", "Finding1", "test_1");
    assert_eq!(claim.id, "C1");
    assert_eq!(claim.statement, "Test statement");
    assert_eq!(claim.finding, "Finding1");
}

#[test]
fn test_thesis_claim_with_example() {
    let claim = ThesisClaim::new("C1", "Test", "F1", "test_1").with_example("example_code");
    assert_eq!(claim.evidence_example, Some("example_code".to_string()));
}

#[test]
fn test_thesis_claim_mark_verified() {
    let claim = ThesisClaim::new("C1", "Test", "F1", "test_1").mark_verified();
    assert_eq!(claim.verification_status, VerificationStatus::Green);
}

#[test]
fn test_thesis_claim_mark_failed() {
    let claim = ThesisClaim::new("C1", "Test", "F1", "test_1").mark_failed("reason");
    assert!(matches!(
        claim.verification_status,
        VerificationStatus::Failed(_)
    ));
}

#[test]
fn test_proof_pack_creation() {
    let pack = ProofPack::new();
    assert!(pack.claims.is_empty());
    assert!(!pack.all_green);
}

#[test]
fn test_proof_pack_add_claim() {
    let mut pack = ProofPack::new();
    let claim = ThesisClaim::new("C1", "Test", "F1", "test_1");
    pack.add_claim(claim);

    assert_eq!(pack.claims.len(), 1);
}

#[test]
fn test_proof_pack_verify_all() {
    let mut pack = ProofPack::new();
    pack.add_claim(ThesisClaim::new("C1", "Test", "F1", "test_1"));
    pack.add_claim(ThesisClaim::new("C2", "Test", "F1", "test_2"));

    let _ = pack.verify_all();
    assert_eq!(pack.verified_count(), 2);
}

#[test]
fn test_proof_pack_finding_verified() {
    let mut pack = ProofPack::new();
    let claim = ThesisClaim::new("C1", "Test", "F1", "test_1").mark_verified();
    pack.add_claim(claim);

    assert!(pack.finding_verified("F1"));
}

#[test]
fn test_proof_pack_verified_count() {
    let mut pack = ProofPack::new();
    pack.add_claim(ThesisClaim::new("C1", "Test", "F1", "test_1").mark_verified());
    pack.add_claim(ThesisClaim::new("C2", "Test", "F1", "test_2"));

    assert_eq!(pack.verified_count(), 1);
}

#[test]
fn test_proof_pack_evidence_report() {
    let mut pack = ProofPack::new();
    pack.add_claim(ThesisClaim::new("C1", "Test", "F1", "test_1").mark_verified());

    let report = pack.evidence_report();
    assert!(report.contains("Thesis Evidence Proof Pack"));
    assert!(report.contains("Finding: F1"));
}

#[test]
fn test_multiple_findings() {
    let mut pack = ProofPack::new();
    pack.add_claim(ThesisClaim::new("C1", "Test1", "Finding1", "test_1"));
    pack.add_claim(ThesisClaim::new("C2", "Test2", "Finding2", "test_2"));
    pack.add_claim(ThesisClaim::new("C3", "Test3", "Finding1", "test_3"));

    assert_eq!(pack.claims.len(), 3);
}
