use avmnif::safety_ledger::{GlobalInvariant, SafetyLedger, UnsafeBlock};

#[test]
fn test_unsafe_block_creation() {
    let block = UnsafeBlock::new("src/ffi.rs:42", "Dereference C pointer");
    assert_eq!(block.location, "src/ffi.rs:42");
    assert!(!block.verified);
}

#[test]
fn test_unsafe_block_add_invariants() {
    let mut block = UnsafeBlock::new("src/ffi.rs:42", "Dereference C pointer");
    block.add_precondition("pointer must be non-null");
    block.add_postcondition("memory is initialized");

    assert_eq!(block.preconditions.len(), 1);
    assert_eq!(block.postconditions.len(), 1);
}

#[test]
fn test_unsafe_block_verify() {
    let mut block = UnsafeBlock::new("src/ffi.rs:42", "Dereference C pointer");
    block.add_precondition("pointer must be non-null");
    block.add_postcondition("memory is initialized");
    block.mark_verified("Proof: null check performed at line 40");

    assert!(block.verified);
    assert!(block.proof.is_some());
}

#[test]
fn test_safety_ledger_creation() {
    let ledger = SafetyLedger::new();
    assert_eq!(ledger.unsafe_blocks.len(), 0);
    assert_eq!(ledger.global_invariants.len(), 4);
}

#[test]
fn test_safety_ledger_register_block() {
    let mut ledger = SafetyLedger::new();
    let block = UnsafeBlock::new("src/ffi.rs:42", "Test block");
    ledger.register_unsafe_block(block);

    assert_eq!(ledger.unsafe_blocks.len(), 1);
}

#[test]
fn test_safety_ledger_verify_block() {
    let mut ledger = SafetyLedger::new();
    let mut block = UnsafeBlock::new("src/ffi.rs:42", "Test block");
    block.add_precondition("precond");
    block.add_postcondition("postcond");
    ledger.register_unsafe_block(block);

    let result = ledger.verify_unsafe_block("src/ffi.rs:42", "Proof: verified");
    assert!(result);

    if let Some(verified_block) = ledger.get_unsafe_block("src/ffi.rs:42") {
        assert!(verified_block.verified);
    }
}

#[test]
fn test_safety_ledger_check_all_verified() {
    let mut ledger = SafetyLedger::new();
    let block = UnsafeBlock::new("src/ffi.rs:42", "Test block");
    ledger.register_unsafe_block(block);

    // Not verified yet
    assert!(!ledger.check_all_verified());

    // Verify it
    ledger.verify_unsafe_block("src/ffi.rs:42", "Proof");
    assert!(ledger.check_all_verified());
}

#[test]
fn test_safety_ledger_global_invariants() {
    let mut ledger = SafetyLedger::new();
    let mut block = UnsafeBlock::new("src/ffi.rs:42", "Test block");
    block.add_precondition("precond");
    block.add_postcondition("postcond");
    block.mark_verified("proof");
    ledger.register_unsafe_block(block);

    assert!(ledger.check_global_invariants());
}

#[test]
fn test_global_invariant_descriptions() {
    assert_eq!(
        GlobalInvariant::NullPtrCheck.description(),
        "No null pointer dereferences"
    );
    assert_eq!(
        GlobalInvariant::NoUseAfterFree.description(),
        "No use-after-free"
    );
}

#[test]
fn test_safety_ledger_audit_report() {
    let mut ledger = SafetyLedger::new();
    let block = UnsafeBlock::new("src/ffi.rs:42", "Test block");
    ledger.register_unsafe_block(block);

    let report = ledger.audit_report();
    assert!(report.contains("FFI Safety Audit Report"));
    assert!(report.contains("Total unsafe blocks: 1"));
}

#[test]
fn test_multiple_unsafe_blocks() {
    let mut ledger = SafetyLedger::new();

    for i in 0..5 {
        let block = UnsafeBlock::new(&format!("src/ffi.rs:{}", i * 10), &format!("Block {}", i));
        ledger.register_unsafe_block(block);
    }

    assert_eq!(ledger.unsafe_blocks.len(), 5);
}

#[test]
fn test_invariant_check_consistency() {
    let mut ledger = SafetyLedger::new();
    let mut block = UnsafeBlock::new("src/ffi.rs:42", "Test block");
    block.add_precondition("precond");
    block.add_postcondition("postcond");
    block.mark_verified("proof");
    ledger.register_unsafe_block(block);

    let invariants_hold = ledger.check_global_invariants();
    assert!(invariants_hold);
    assert!(ledger.all_verified);
}

#[test]
fn change_block_in_place() {
    let mut ledger = SafetyLedger::new();
    ledger.register_unsafe_block(UnsafeBlock::new("z", "d"));
    ledger.get_unsafe_block_mut("z").unwrap().add_precondition("p");
    assert_eq!(ledger.get_unsafe_block("z").unwrap().preconditions.len(), 1);
    assert!(ledger.get_unsafe_block_mut("none").is_none());
}
