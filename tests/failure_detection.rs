use avmnif::failure_detection::{Failure, FailureDetector, FailureKind, RecoveryAction};
use avmnif::health_monitor::HealthStatus;

#[test]
fn test_failure_creation() {
    let failure = Failure::new(FailureKind::StateCorruption, 0, 10, 5);
    assert_eq!(failure.expected_value, 10);
    assert_eq!(failure.actual_value, 5);
}

#[test]
fn test_detector_creation() {
    let detector = FailureDetector::new(0);
    assert_eq!(detector.failure_count(), 0);
    assert_eq!(detector.expected_value, 0);
}

#[test]
fn test_divergence_detection() {
    let mut detector = FailureDetector::new(5);

    let failure = detector.check_divergence(3, 0);
    assert!(failure.is_some());
    assert_eq!(detector.failure_count(), 1);
}

#[test]
fn test_no_divergence() {
    let mut detector = FailureDetector::new(5);
    detector.expected_value = 5;

    let failure = detector.check_divergence(5, 0);
    assert!(failure.is_none());
}

#[test]
fn test_queue_overflow_detection() {
    let mut detector = FailureDetector::new(0);

    let failure = detector.detect_queue_overflow(950, 1000, 0);
    assert!(failure.is_some());
}

#[test]
fn test_no_queue_overflow() {
    let mut detector = FailureDetector::new(0);

    let failure = detector.detect_queue_overflow(800, 1000, 0);
    assert!(failure.is_none());
}

#[test]
fn test_health_critical_detection() {
    let mut detector = FailureDetector::new(0);

    let failure = detector.detect_health_critical(HealthStatus::Critical, 0);
    assert!(failure.is_some());
    assert_eq!(failure.unwrap().kind, FailureKind::HealthCritical);
}

#[test]
fn test_recovery_queue_overflow() {
    let mut detector = FailureDetector::new(0);
    let failure = Failure::new(FailureKind::QueueOverflow, 0, 0, 950);

    let result = detector.recover(&failure, 5);
    assert!(result.success);
    assert_eq!(result.action, RecoveryAction::ClearQueue);
}

#[test]
fn test_recovery_state_corruption() {
    let mut detector = FailureDetector::new(10);
    let failure = Failure::new(FailureKind::StateCorruption, 0, 10, 5);

    let result = detector.recover(&failure, 5);
    assert!(result.success);
    assert_eq!(result.action, RecoveryAction::ResetState);
}

#[test]
fn test_multiple_failures() {
    let mut detector = FailureDetector::new(0);

    detector.check_divergence(1, 0);
    detector.check_divergence(2, 0);
    detector.check_divergence(3, 0);

    assert_eq!(detector.failure_count(), 3);
}

#[test]
fn test_failures_by_kind() {
    let mut detector = FailureDetector::new(0);

    detector.check_divergence(1, 0); // StateCorruption
    detector.detect_queue_overflow(950, 1000, 0); // QueueOverflow

    let corruptions = detector.failures_by_kind(FailureKind::StateCorruption);
    assert_eq!(corruptions.len(), 1);

    let overflows = detector.failures_by_kind(FailureKind::QueueOverflow);
    assert_eq!(overflows.len(), 1);
}

#[test]
fn failure_detection_test_detection_can_be_disabled() {
    let mut detector = FailureDetector::new(5);
    detector.set_detection_enabled(false);

    let failure = detector.check_divergence(3, 0);
    assert!(failure.is_none());
    assert_eq!(detector.failure_count(), 0);
}

#[test]
fn failure_detection_test_reset() {
    let mut detector = FailureDetector::new(0);
    detector.check_divergence(1, 0);
    detector.detect_queue_overflow(950, 1000, 0);

    assert!(detector.failure_count() > 0);
    detector.reset();
    assert_eq!(detector.failure_count(), 0);
}

#[test]
fn test_recovery_tracking() {
    let mut detector = FailureDetector::new(10);
    let failure1 = Failure::new(FailureKind::QueueOverflow, 0, 0, 950);
    let failure2 = Failure::new(FailureKind::StateCorruption, 0, 10, 5);

    detector.recover(&failure1, 5);
    detector.recover(&failure2, 5);

    assert_eq!(detector.recovery_count(), 2);
    let successful = detector.successful_recoveries();
    assert_eq!(successful.len(), 2);
}
