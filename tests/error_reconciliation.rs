use avmnif::error_reconciliation::{DomainError, ErlangError, ErrorMorphism, ErrorReconciliation, StandardErrorMorphism};

#[test]
fn test_domain_error_badarg() {
    let err = DomainError::BadArg;
    assert_eq!(err.description(), "bad argument");
}

#[test]
fn test_domain_error_custom() {
    let err = DomainError::Custom("custom error".to_string());
    assert_eq!(err.description(), "custom error");
}

#[test]
fn test_erlang_error_badarg() {
    let err = ErlangError::Badarg;
    assert_eq!(err.atom_name(), "badarg");
}

#[test]
fn test_erlang_error_enomem() {
    let err = ErlangError::Enomem;
    assert_eq!(err.atom_name(), "enomem");
}

#[test]
fn test_standard_error_morphism_badarg() {
    let morphism = StandardErrorMorphism;
    let rust_err = DomainError::BadArg;

    let erlang_err = morphism.to_erlang(&rust_err);
    assert_eq!(erlang_err, ErlangError::Badarg);
}

#[test]
fn test_standard_error_morphism_out_of_memory() {
    let morphism = StandardErrorMorphism;
    let rust_err = DomainError::OutOfMemory;

    let erlang_err = morphism.to_erlang(&rust_err);
    assert_eq!(erlang_err, ErlangError::Enomem);
}

#[test]
fn test_standard_error_morphism_roundtrip() {
    let morphism = StandardErrorMorphism;
    let rust_err = DomainError::BadArg;

    let erlang_err = morphism.to_erlang(&rust_err);
    let back = morphism.to_rust(&erlang_err);

    assert_eq!(rust_err, back);
}

#[test]
fn test_error_morphism_verify() {
    let morphism = StandardErrorMorphism;
    let err = DomainError::BadArg;

    let result = morphism.verify_morphism(&err).unwrap();
    assert!(result);
}

#[test]
fn test_error_reconciliation_creation() {
    let recon = ErrorReconciliation::new();
    assert_eq!(recon.total_checks, 0);
}

#[test]
fn test_error_reconciliation_verify() {
    let mut recon = ErrorReconciliation::new();
    let morphism = StandardErrorMorphism;
    let err = DomainError::BadArg;

    let result = recon.verify_error(&morphism, &err);
    assert!(result);
    assert_eq!(recon.total_checks, 1);
}

#[test]
fn test_error_stability_test() {
    let mut recon = ErrorReconciliation::new();
    let morphism = StandardErrorMorphism;
    let err = DomainError::BadArg;

    let stable = recon.test_error_stability(&morphism, &err, 5);
    assert!(stable);
}

#[test]
fn test_multiple_error_types() {
    let mut recon = ErrorReconciliation::new();
    let morphism = StandardErrorMorphism;

    assert!(recon.verify_error(&morphism, &DomainError::BadArg));
    assert!(recon.verify_error(&morphism, &DomainError::OutOfMemory));
    assert!(recon.verify_error(&morphism, &DomainError::TypeError));

    assert_eq!(recon.total_checks, 3);
}
