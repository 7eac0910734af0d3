use avmnif::health_monitor::{HealthMonitor, HealthStatus, HealthThresholds};

#[test]
fn test_health_thresholds_default() {
    let thresholds = HealthThresholds::default();
    assert_eq!(thresholds.error_rate_critical, 50);
    assert_eq!(thresholds.error_rate_degraded, 20);
}

#[test]
fn test_health_monitor_creation() {
    let monitor = HealthMonitor::new();
    assert_eq!(monitor.total_operations, 0);
    assert_eq!(monitor.total_errors, 0);
}

#[test]
fn test_health_monitor_start() {
    let mut monitor = HealthMonitor::new();
    monitor.start(1000);
    assert_eq!(monitor.start_time, 1000);
}

#[test]
fn test_health_monitor_record_operation() {
    let mut monitor = HealthMonitor::new();
    monitor.record_operation(true, 100);
    monitor.record_operation(true, 105);

    assert_eq!(monitor.total_operations, 2);
    assert_eq!(monitor.total_errors, 0);
}

#[test]
fn test_health_monitor_record_error() {
    let mut monitor = HealthMonitor::new();
    monitor.record_operation(true, 100);
    monitor.record_operation(false, 105);
    monitor.record_operation(true, 100);

    assert_eq!(monitor.total_operations, 3);
    assert_eq!(monitor.total_errors, 1);
}

#[test]
fn test_health_monitor_healthy_status() {
    let mut monitor = HealthMonitor::new();
    monitor.start(0);
    monitor.record_operation(true, 100);
    monitor.record_operation(true, 100);

    let metrics = monitor.check_health(1000);
    assert_eq!(metrics.status, HealthStatus::Healthy);
    assert_eq!(metrics.error_rate, 0);
}

#[test]
fn test_health_monitor_degraded_status() {
    let mut monitor = HealthMonitor::new();
    monitor.start(0);

    // Record operations with 30% error rate
    for _ in 0..7 {
        monitor.record_operation(true, 100);
    }
    for _ in 0..3 {
        monitor.record_operation(false, 100);
    }

    let metrics = monitor.check_health(1000);
    assert_eq!(metrics.status, HealthStatus::Degraded);
    assert_eq!(metrics.error_rate, 30);
}

#[test]
fn test_health_monitor_critical_status() {
    let mut monitor = HealthMonitor::new();
    monitor.start(0);

    // Record operations with 60% error rate
    for _ in 0..4 {
        monitor.record_operation(true, 100);
    }
    for _ in 0..6 {
        monitor.record_operation(false, 100);
    }

    let metrics = monitor.check_health(1000);
    assert_eq!(metrics.status, HealthStatus::Critical);
    assert_eq!(metrics.error_rate, 60);
}

#[test]
fn test_health_monitor_uptime() {
    let mut monitor = HealthMonitor::new();
    monitor.start(100);

    let metrics = monitor.check_health(1100);
    assert_eq!(metrics.uptime, 1000);
}

#[test]
fn test_health_monitor_memory_events() {
    let mut monitor = HealthMonitor::new();
    monitor.record_memory_event();
    monitor.record_memory_event();
    monitor.record_memory_event();

    let metrics = monitor.check_health(0);
    assert_eq!(metrics.memory_events, 3);
}

#[test]
fn test_health_monitor_get_report() {
    let mut monitor = HealthMonitor::new();
    monitor.start(0);
    monitor.record_operation(true, 100);

    let report = monitor.get_report(1000);
    assert_eq!(report.metrics.status, HealthStatus::Healthy);
    assert_eq!(report.checks_performed, 1);
}

#[test]
fn test_health_monitor_reset() {
    let mut monitor = HealthMonitor::new();
    monitor.record_operation(true, 100);
    monitor.record_operation(false, 100);
    monitor.record_memory_event();

    assert_eq!(monitor.total_operations, 2);
    assert_eq!(monitor.total_errors, 1);

    monitor.reset();

    assert_eq!(monitor.total_operations, 0);
    assert_eq!(monitor.total_errors, 0);
    assert_eq!(monitor.memory_events, 0);
}

#[test]
fn test_health_monitor_unknown_status() {
    let mut monitor = HealthMonitor::new();
    let metrics = monitor.check_health(0);
    assert_eq!(metrics.status, HealthStatus::Unknown);
}

#[test]
fn test_health_monitor_custom_thresholds() {
    let thresholds = HealthThresholds {
        error_rate_critical: 10,
        error_rate_degraded: 5,
        latency_critical: 200,
        latency_degraded: 100,
    };

    let mut monitor = HealthMonitor::with_thresholds(thresholds);
    monitor.start(0);

    // 15% error rate should trigger degraded with custom threshold
    for _ in 0..85 {
        monitor.record_operation(true, 100);
    }
    for _ in 0..15 {
        monitor.record_operation(false, 100);
    }

    let metrics = monitor.check_health(1000);
    assert_eq!(metrics.status, HealthStatus::Critical);
}
