use avmnif::command_executor::Command;
use avmnif::operation_scheduler::{OperationScheduler, Priority};

#[test]
fn test_priority_ordering() {
    assert!(Priority::Critical > Priority::High);
    assert!(Priority::High > Priority::Normal);
    assert!(Priority::Normal > Priority::Low);
}

#[test]
fn test_scheduler_creation() {
    let scheduler = OperationScheduler::new(0);
    assert_eq!(scheduler.queue_size(), 0);
    assert_eq!(scheduler.current_value(), 0);
}

#[test]
fn test_scheduler_schedule() {
    let mut scheduler = OperationScheduler::new(0);
    scheduler.schedule(Command::Increment, Priority::Normal);

    assert_eq!(scheduler.queue_size(), 1);
}

#[test]
fn test_scheduler_schedule_at() {
    let mut scheduler = OperationScheduler::new(0);
    scheduler.set_time(100);
    scheduler.schedule_at(Command::Increment, Priority::Normal, 200);

    assert_eq!(scheduler.queue_size(), 1);
}

#[test]
fn test_scheduler_execute_pending() {
    let mut scheduler = OperationScheduler::new(0);
    scheduler.set_time(100);

    scheduler.schedule_at(Command::Increment, Priority::Normal, 50);
    scheduler.schedule_at(Command::Increment, Priority::Normal, 150);

    let results = scheduler.execute_pending();
    assert_eq!(results.len(), 1); // Only the one scheduled at time 50
    assert_eq!(scheduler.queue_size(), 1); // One still pending
}

#[test]
fn test_scheduler_execute_batch() {
    let mut scheduler = OperationScheduler::new(0);

    scheduler.schedule(Command::Increment, Priority::Normal);
    scheduler.schedule(Command::Increment, Priority::Normal);
    scheduler.schedule(Command::Decrement, Priority::Normal);

    let results = scheduler.execute_batch(2);
    assert_eq!(results.len(), 2);
    assert_eq!(scheduler.queue_size(), 1);
}

#[test]
fn test_scheduler_priority_queue() {
    let mut scheduler = OperationScheduler::new(0);
    scheduler.set_time(0);

    scheduler.schedule_at(Command::Increment, Priority::Low, 0);
    scheduler.schedule_at(Command::Decrement, Priority::High, 0);
    scheduler.schedule_at(Command::Get, Priority::Normal, 0);

    let results = scheduler.execute_batch(1);
    assert_eq!(results[0].command, Command::Decrement); // High priority first
}

#[test]
fn test_scheduler_statistics() {
    let mut scheduler = OperationScheduler::new(0);

    scheduler.schedule(Command::Increment, Priority::Normal);
    scheduler.execute_batch(1);

    let (total, executed, success) = scheduler.statistics();
    assert_eq!(total, 1);
    assert_eq!(executed, 1);
    assert_eq!(success, 1);
}

#[test]
fn test_scheduler_pending_at_priority() {
    let mut scheduler = OperationScheduler::new(0);

    scheduler.schedule(Command::Increment, Priority::High);
    scheduler.schedule(Command::Increment, Priority::High);
    scheduler.schedule(Command::Decrement, Priority::Low);

    let high_priority = scheduler.pending_at_priority(Priority::High);
    assert_eq!(high_priority.len(), 2);
}

#[test]
fn test_scheduler_cancel_pending() {
    let mut scheduler = OperationScheduler::new(0);

    scheduler.schedule(Command::Increment, Priority::Normal);
    scheduler.schedule(Command::Increment, Priority::Normal);
    scheduler.schedule(Command::Decrement, Priority::Normal);

    let cancelled = scheduler.cancel_pending(Command::Increment);
    assert_eq!(cancelled, 2);
    assert_eq!(scheduler.queue_size(), 1);
}

#[test]
fn test_scheduler_next_executable() {
    let mut scheduler = OperationScheduler::new(0);
    scheduler.set_time(100);

    scheduler.schedule_at(Command::Increment, Priority::Normal, 50);
    scheduler.schedule_at(Command::Decrement, Priority::Normal, 200);

    let next = scheduler.next_executable();
    assert!(next.is_some());
    assert_eq!(next.unwrap().command, Command::Increment);
}

#[test]
fn test_scheduler_reset() {
    let mut scheduler = OperationScheduler::new(0);

    scheduler.schedule(Command::Increment, Priority::Normal);
    scheduler.execute_batch(1);

    scheduler.reset();

    assert_eq!(scheduler.queue_size(), 0);
    assert_eq!(scheduler.executed_count(), 0);
    assert_eq!(scheduler.current_value(), 0);
}

#[test]
fn test_scheduler_complex_workflow() {
    let mut scheduler = OperationScheduler::new(5);

    // Schedule operations across time
    scheduler.set_time(0);
    scheduler.schedule_at(Command::Increment, Priority::High, 0);
    scheduler.schedule_at(Command::Increment, Priority::Low, 100);
    scheduler.schedule_at(Command::Decrement, Priority::Normal, 50);

    // Execute pending at time 0
    scheduler.execute_pending();
    assert_eq!(scheduler.current_value(), 6);

    // Move time and execute more
    scheduler.set_time(50);
    scheduler.execute_pending();
    assert_eq!(scheduler.current_value(), 5);

    // Move to end
    scheduler.set_time(100);
    scheduler.execute_pending();
    assert_eq!(scheduler.current_value(), 6);

    assert_eq!(scheduler.executed_count(), 3);
}
