use avmnif::counter::{SafeCounter, SafeMath, TermBuilder};

#[test]
fn test_safe_counter_creation() {
    let mut counter = SafeCounter::new(5);
    assert_eq!(counter.get(), 5);
}

#[test]
fn test_safe_counter_increment() {
    let mut counter = SafeCounter::new(0);
    assert_eq!(counter.increment(), 1);
    assert_eq!(counter.increment(), 2);
}

#[test]
fn test_safe_counter_decrement() {
    let mut counter = SafeCounter::new(5);
    assert_eq!(counter.decrement(), 4);
    assert_eq!(counter.decrement(), 3);
}

#[test]
fn test_safe_math_add() {
    assert_eq!(SafeMath::add(2, 3), Ok(5));
    assert!(SafeMath::add(i32::MAX, 1).is_err());
}

#[test]
fn test_safe_math_multiply() {
    assert_eq!(SafeMath::multiply(3, 4), Ok(12));
    assert!(SafeMath::multiply(i32::MAX, 2).is_err());
}

#[test]
fn test_safe_math_list_sum() {
    assert_eq!(SafeMath::list_sum(&[1, 2, 3, 4, 5]), Ok(15));
    assert_eq!(SafeMath::list_sum(&[]), Ok(0));
}

#[test]
fn test_term_builder() {
    let int_term = TermBuilder::integer(42);
    assert_eq!(int_term.as_int(), Some(42));

    let list_term = TermBuilder::int_list(&[1, 2, 3]);
    let list_vec = list_term.list_to_vec();
    assert_eq!(list_vec.len(), 3);
}
