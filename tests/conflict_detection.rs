use avmnif::conflict_detection::{ConflictDetector, ConflictKind};
use avmnif::message_dispatch::MessageOp;

#[test]
fn test_arithmetic_invariant_inc() {
    let mut detector = ConflictDetector::new();
    let conflict = detector.check_arithmetic_invariant(MessageOp::Inc, 5, 6);
    assert!(conflict.is_none());
}

#[test]
fn test_arithmetic_invariant_violation() {
    let mut detector = ConflictDetector::new();
    let conflict = detector.check_arithmetic_invariant(MessageOp::Inc, 5, 10);
    assert!(conflict.is_some());
    assert_eq!(detector.conflict_count(), 1);
}

#[test]
fn test_arithmetic_invariant_dec() {
    let mut detector = ConflictDetector::new();
    let conflict = detector.check_arithmetic_invariant(MessageOp::Dec, 5, 4);
    assert!(conflict.is_none());
}

#[test]
fn test_arithmetic_invariant_get() {
    let mut detector = ConflictDetector::new();
    let conflict = detector.check_arithmetic_invariant(MessageOp::Get, 5, 5);
    assert!(conflict.is_none());
}

#[test]
fn test_arithmetic_invariant_reset() {
    let mut detector = ConflictDetector::new();
    let conflict = detector.check_arithmetic_invariant(MessageOp::Reset, 100, 0);
    assert!(conflict.is_none());
}

#[test]
fn test_ordering_violation() {
    let mut detector = ConflictDetector::new();
    // Inc then Dec should equal the original value
    let conflict = detector.check_ordering_invariant(
        MessageOp::Inc,
        MessageOp::Dec,
        6, // Combined result
        5, // Sequential result
    );
    assert!(conflict.is_some());
}

#[test]
fn test_ordering_consistent() {
    let mut detector = ConflictDetector::new();
    let conflict = detector.check_ordering_invariant(
        MessageOp::Inc,
        MessageOp::Dec,
        5,
        5,
    );
    assert!(conflict.is_none());
}

#[test]
fn test_idempotence_get() {
    let mut detector = ConflictDetector::new();
    let conflict = detector.check_idempotence(MessageOp::Get, 5, 5, 5);
    assert!(conflict.is_none());
}

#[test]
fn test_idempotence_reset() {
    let mut detector = ConflictDetector::new();
    let conflict = detector.check_idempotence(MessageOp::Reset, 100, 0, 0);
    assert!(conflict.is_none());
}

#[test]
fn test_idempotence_violation() {
    let mut detector = ConflictDetector::new();
    let conflict = detector.check_idempotence(MessageOp::Get, 5, 5, 6);
    assert!(conflict.is_some());
}

#[test]
fn test_sequence_consistency() {
    let mut detector = ConflictDetector::new();
    let ops = [MessageOp::Inc, MessageOp::Inc, MessageOp::Dec];
    let expected = [1, 2, 1];
    let actual = [1, 2, 1];

    let conflict = detector.check_sequence_consistency(&ops, &expected, &actual);
    assert!(conflict.is_none());
}

#[test]
fn test_sequence_violation() {
    let mut detector = ConflictDetector::new();
    let ops = [MessageOp::Inc, MessageOp::Inc, MessageOp::Dec];
    let expected = [1, 2, 1];
    let actual = [1, 2, 2];

    let conflict = detector.check_sequence_consistency(&ops, &expected, &actual);
    assert!(conflict.is_some());
}

#[test]
fn test_timing_violation() {
    let mut detector = ConflictDetector::new();
    let conflict = detector.check_timing_bound(MessageOp::Inc, 200, 100);
    assert!(conflict.is_some());
}

#[test]
fn test_timing_within_bound() {
    let mut detector = ConflictDetector::new();
    let conflict = detector.check_timing_bound(MessageOp::Inc, 50, 100);
    assert!(conflict.is_none());
}

#[test]
fn test_conflicts_by_kind() {
    let mut detector = ConflictDetector::new();
    detector.check_arithmetic_invariant(MessageOp::Inc, 5, 10);
    detector.check_timing_bound(MessageOp::Dec, 200, 100);

    let arithmetic_conflicts = detector.conflicts_by_kind(ConflictKind::ArithmeticInvariant);
    assert_eq!(arithmetic_conflicts.len(), 1);

    let timing_conflicts = detector.conflicts_by_kind(ConflictKind::TimingViolation);
    assert_eq!(timing_conflicts.len(), 1);
}

#[test]
fn conflict_detection_test_detection_can_be_disabled() {
    let mut detector = ConflictDetector::new();
    detector.set_checking_enabled(false);

    let conflict = detector.check_arithmetic_invariant(MessageOp::Inc, 5, 10);
    assert!(conflict.is_none());
    assert_eq!(detector.conflict_count(), 0);
}

#[test]
fn conflict_detection_test_reset() {
    let mut detector = ConflictDetector::new();
    detector.check_arithmetic_invariant(MessageOp::Inc, 5, 10);
    assert_eq!(detector.conflict_count(), 1);

    detector.reset();
    assert_eq!(detector.conflict_count(), 0);
}

#[test]
fn test_latest_conflict() {
    let mut detector = ConflictDetector::new();
    detector.check_arithmetic_invariant(MessageOp::Inc, 5, 10);
    detector.check_timing_bound(MessageOp::Dec, 200, 100);

    let latest = detector.latest_conflict();
    assert!(latest.is_some());
    assert_eq!(latest.unwrap().kind, ConflictKind::TimingViolation);
}

#[test]
fn test_conflicts_with_operation() {
    let mut detector = ConflictDetector::new();
    detector.check_arithmetic_invariant(MessageOp::Inc, 5, 10);
    detector.check_arithmetic_invariant(MessageOp::Inc, 5, 11);
    detector.check_arithmetic_invariant(MessageOp::Dec, 5, 6);

    let inc_conflicts = detector.conflicts_with_operation(MessageOp::Inc);
    assert_eq!(inc_conflicts.len(), 2);

    let dec_conflicts = detector.conflicts_with_operation(MessageOp::Dec);
    assert_eq!(dec_conflicts.len(), 1);
}
