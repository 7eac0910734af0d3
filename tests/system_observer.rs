use avmnif::message_dispatch::MessageOp;
use avmnif::system_observer::SystemObserver;

#[test]
fn test_observer_creation() {
    let observer = SystemObserver::new(0);
    assert_eq!(observer.observation_count(), 0);
    assert_eq!(observer.current_state(), "normal");
}

#[test]
fn test_observe_operation() {
    let mut observer = SystemObserver::new(0);
    let obs = observer.observe_operation(MessageOp::Inc, 0, 1, 100, 0);

    assert_eq!(obs.operation, MessageOp::Inc);
    assert_eq!(obs.state_before, 0);
    assert_eq!(obs.state_after, 1);
    assert_eq!(observer.observation_count(), 1);
}

#[test]
fn test_observe_with_conflict() {
    let mut observer = SystemObserver::new(0);
    let obs = observer.observe_operation(MessageOp::Inc, 0, 5, 100, 0);

    assert_eq!(obs.conflicts_detected, 1);
    assert_eq!(observer.total_conflicts, 1);
}

#[test]
fn test_multiple_observations() {
    let mut observer = SystemObserver::new(0);

    observer.observe_operation(MessageOp::Inc, 0, 1, 100, 0);
    observer.observe_operation(MessageOp::Inc, 1, 2, 105, 1);
    observer.observe_operation(MessageOp::Dec, 2, 1, 95, 2);

    assert_eq!(observer.observation_count(), 3);
}

#[test]
fn test_diagnostic_summary() {
    let mut observer = SystemObserver::new(0);
    observer.observe_operation(MessageOp::Inc, 0, 1, 100, 0);

    let (failures, conflicts, observations) = observer.diagnostic_summary();
    assert_eq!(observations, 1);
}

#[test]
fn test_operations_with_issues() {
    let mut observer = SystemObserver::new(0);
    observer.observe_operation(MessageOp::Inc, 0, 1, 100, 0);
    observer.observe_operation(MessageOp::Inc, 1, 5, 100, 1);
    observer.observe_operation(MessageOp::Dec, 5, 4, 100, 2);

    let issues = observer.operations_with_issues();
    assert!(issues.len() > 0);
}

#[test]
fn test_recent_observations() {
    let mut observer = SystemObserver::new(0);
    observer.observe_operation(MessageOp::Inc, 0, 1, 100, 0);
    observer.observe_operation(MessageOp::Inc, 1, 2, 100, 1);
    observer.observe_operation(MessageOp::Dec, 2, 1, 100, 2);

    let recent = observer.recent_observations(2);
    assert_eq!(recent.len(), 2);
}

#[test]
fn test_failure_pattern() {
    let mut observer = SystemObserver::new(0);
    observer.observe_operation(MessageOp::Inc, 0, 5, 100, 0);
    observer.observe_operation(MessageOp::Inc, 5, 10, 100, 1);

    let pattern = observer.failure_pattern_in_operation(MessageOp::Inc);
    assert!(pattern > 0);
}

#[test]
fn test_observation_can_be_disabled() {
    let mut observer = SystemObserver::new(0);
    observer.set_observation_enabled(false);

    observer.observe_operation(MessageOp::Inc, 0, 1, 100, 0);
    assert_eq!(observer.observation_count(), 0);
}

#[test]
fn test_clear_observations() {
    let mut observer = SystemObserver::new(0);
    observer.observe_operation(MessageOp::Inc, 0, 1, 100, 0);
    assert_eq!(observer.observation_count(), 1);

    observer.clear_observations();
    assert_eq!(observer.observation_count(), 0);
}

#[test]
fn test_state_transitions() {
    let mut observer = SystemObserver::new(0);
    assert_eq!(observer.current_state(), "normal");

    observer.observe_operation(MessageOp::Inc, 0, 5, 100, 0);
    observer.observe_operation(MessageOp::Inc, 5, 10, 100, 1);

    // State may transition to degraded after multiple conflicts
}

#[test]
fn system_observer_test_reset() {
    let mut observer = SystemObserver::new(0);
    observer.observe_operation(MessageOp::Inc, 0, 5, 100, 0);

    assert_eq!(observer.observation_count(), 1);
    observer.reset(0);
    assert_eq!(observer.observation_count(), 0);
    assert_eq!(observer.total_failures, 0);
}
