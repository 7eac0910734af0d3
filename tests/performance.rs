use avmnif::message_dispatch::MessageOp;
use avmnif::performance::{OperationMetrics, PerformanceMonitor};

#[test]
fn test_operation_metrics_creation() {
    let metrics = OperationMetrics::new(MessageOp::Inc);
    assert_eq!(metrics.count, 0);
    assert_eq!(metrics.average(), 0);
}

#[test]
fn test_operation_metrics_recording() {
    let mut metrics = OperationMetrics::new(MessageOp::Inc);

    metrics.record(100);
    assert_eq!(metrics.count, 1);
    assert_eq!(metrics.total_cycles, 100);
    assert_eq!(metrics.min_cycles, 100);
    assert_eq!(metrics.max_cycles, 100);
    assert_eq!(metrics.average(), 100);
}

#[test]
fn test_operation_metrics_multiple_recordings() {
    let mut metrics = OperationMetrics::new(MessageOp::Inc);

    metrics.record(100);
    metrics.record(200);
    metrics.record(50);

    assert_eq!(metrics.count, 3);
    assert_eq!(metrics.total_cycles, 350);
    assert_eq!(metrics.min_cycles, 50);
    assert_eq!(metrics.max_cycles, 200);
    assert_eq!(metrics.average(), 116);
}

#[test]
fn test_operation_metrics_throughput() {
    let mut metrics = OperationMetrics::new(MessageOp::Inc);

    // Record 10 operations taking 10 cycles total
    for _ in 0..10 {
        metrics.record(1);
    }

    let throughput = metrics.throughput_per_second();
    assert!(throughput > 0);
}

#[test]
fn test_performance_monitor_creation() {
    let monitor = PerformanceMonitor::new();
    assert_eq!(monitor.total_operations(), 0);
    assert_eq!(monitor.average_cycles(), 0);
}

#[test]
fn test_performance_monitor_recording() {
    let mut monitor = PerformanceMonitor::new();

    monitor.record_operation(MessageOp::Inc, 100);
    monitor.record_operation(MessageOp::Dec, 90);
    monitor.record_operation(MessageOp::Get, 80);

    assert_eq!(monitor.total_operations(), 3);
    assert!(monitor.average_cycles() > 0);
}

#[test]
fn test_performance_monitor_get_metrics() {
    let mut monitor = PerformanceMonitor::new();

    monitor.record_operation(MessageOp::Inc, 100);
    monitor.record_operation(MessageOp::Inc, 110);

    let inc_metrics = monitor.get_metrics(MessageOp::Inc).unwrap();
    assert_eq!(inc_metrics.count, 2);
    assert_eq!(inc_metrics.average(), 105);
}

#[test]
fn test_performance_monitor_fastest_operation() {
    let mut monitor = PerformanceMonitor::new();

    monitor.record_operation(MessageOp::Inc, 100);
    monitor.record_operation(MessageOp::Dec, 90);
    monitor.record_operation(MessageOp::Get, 80);

    let (fastest_op, fastest_avg) = monitor.fastest_operation();
    assert_eq!(fastest_op, MessageOp::Get);
    assert_eq!(fastest_avg, 80);
}

#[test]
fn test_performance_monitor_reset() {
    let mut monitor = PerformanceMonitor::new();

    monitor.record_operation(MessageOp::Inc, 100);
    assert_eq!(monitor.total_operations(), 1);

    monitor.reset();
    assert_eq!(monitor.total_operations(), 0);
    assert_eq!(monitor.average_cycles(), 0);
}

#[test]
fn test_performance_monitor_mixed_operations() {
    let mut monitor = PerformanceMonitor::new();

    for _ in 0..100 {
        monitor.record_operation(MessageOp::Inc, 100);
        monitor.record_operation(MessageOp::Dec, 95);
        monitor.record_operation(MessageOp::Get, 80);
    }

    assert_eq!(monitor.total_operations(), 300);
    let inc_metrics = monitor.get_metrics(MessageOp::Inc).unwrap();
    assert_eq!(inc_metrics.count, 100);
}
