use avmnif::command_executor::{Command, CommandExecutor, CommandResult};
use avmnif::message_dispatch::MessageOp;

#[test]
fn test_command_to_operation() {
    assert_eq!(Command::Increment.to_operation(), MessageOp::Inc);
    assert_eq!(Command::Decrement.to_operation(), MessageOp::Dec);
    assert_eq!(Command::Get.to_operation(), MessageOp::Get);
    assert_eq!(Command::Reset.to_operation(), MessageOp::Reset);
}

#[test]
fn test_command_result_ok() {
    let result = CommandResult::ok(Command::Increment, 42);
    assert!(result.success);
    assert_eq!(result.value, 42);
    assert!(result.error_message.is_none());
}

#[test]
fn test_command_result_error() {
    let result = CommandResult::error(Command::Increment, "test error");
    assert!(!result.success);
    assert_eq!(result.error_message, Some("test error"));
}

#[test]
fn test_executor_creation() {
    let executor = CommandExecutor::new(0);
    assert_eq!(executor.current_value(), 0);
    assert_eq!(executor.sequence, 0);
}

#[test]
fn test_executor_single_command() {
    let mut executor = CommandExecutor::new(0);
    let result = executor.execute(Command::Increment);

    assert!(result.success);
    assert_eq!(result.value, 1);
    assert_eq!(executor.current_value(), 1);
    assert_eq!(executor.sequence, 1);
    assert_eq!(executor.success_count, 1);
}

#[test]
fn test_executor_multiple_commands() {
    let mut executor = CommandExecutor::new(0);

    executor.execute(Command::Increment);
    executor.execute(Command::Increment);
    executor.execute(Command::Decrement);

    assert_eq!(executor.current_value(), 1);
    assert_eq!(executor.sequence, 3);
    assert_eq!(executor.success_count, 3);
}

#[test]
fn test_executor_batch() {
    let mut executor = CommandExecutor::new(5);
    let commands = [
        Command::Increment,
        Command::Increment,
        Command::Decrement,
    ];

    let results = executor.execute_batch(&commands);
    assert_eq!(results.len(), 3);
    assert!(results.iter().all(|r| r.success));
    // 5 + 1 + 1 - 1 = 6
    assert_eq!(executor.current_value(), 6);
}

#[test]
fn test_executor_statistics() {
    let mut executor = CommandExecutor::new(0);
    executor.execute(Command::Increment);
    executor.execute(Command::Increment);

    let (seq, success, error) = executor.statistics();
    assert_eq!(seq, 2);
    assert_eq!(success, 2);
    assert_eq!(error, 0);
}

#[test]
fn test_executor_success_rate() {
    let mut executor = CommandExecutor::new(0);
    executor.execute(Command::Increment);
    executor.execute(Command::Increment);
    executor.execute(Command::Increment);

    assert_eq!(executor.success_rate(), 100);
}

#[test]
fn test_executor_history() {
    let mut executor = CommandExecutor::new(0);
    executor.execute(Command::Increment);
    executor.execute(Command::Get);
    executor.execute(Command::Decrement);

    assert_eq!(executor.history().len(), 3);
    assert_eq!(executor.history()[0].result.command, Command::Increment);
}

#[test]
fn test_executor_commands_of_type() {
    let mut executor = CommandExecutor::new(0);
    executor.execute(Command::Increment);
    executor.execute(Command::Decrement);
    executor.execute(Command::Increment);

    let increments = executor.commands_of_type(Command::Increment);
    assert_eq!(increments.len(), 2);
}

#[test]
fn test_executor_last_commands() {
    let mut executor = CommandExecutor::new(0);
    executor.execute(Command::Increment);
    executor.execute(Command::Decrement);
    executor.execute(Command::Get);
    executor.execute(Command::Reset);

    let last_two = executor.last_commands(2);
    assert_eq!(last_two.len(), 2);
    assert_eq!(last_two[0].result.command, Command::Get);
    assert_eq!(last_two[1].result.command, Command::Reset);
}

#[test]
fn test_executor_clear_history() {
    let mut executor = CommandExecutor::new(0);
    executor.execute(Command::Increment);
    executor.execute(Command::Increment);

    assert_eq!(executor.history().len(), 2);
    executor.clear_history();
    assert_eq!(executor.history().len(), 0);
    assert_eq!(executor.sequence, 0);
}

#[test]
fn test_executor_reset() {
    let mut executor = CommandExecutor::new(0);
    executor.execute(Command::Increment);
    executor.execute(Command::Increment);

    assert_eq!(executor.current_value(), 2);
    executor.reset();
    assert_eq!(executor.current_value(), 0);
    assert_eq!(executor.history().len(), 0);
}
