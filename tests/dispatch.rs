use avmnif::host::NifDispatcher;

#[test]
fn test_dispatcher_creation() {
    let dispatcher = NifDispatcher::new();
    assert_eq!(dispatcher.next_actor_id, 1);
}

#[test]
fn test_dispatcher_allocate_actor_id() {
    let mut dispatcher = NifDispatcher::new();

    let id1 = dispatcher.allocate_actor_id();
    let id2 = dispatcher.allocate_actor_id();
    let id3 = dispatcher.allocate_actor_id();

    assert_eq!(id1, 1);
    assert_eq!(id2, 2);
    assert_eq!(id3, 3);
}

#[test]
fn test_dispatcher_dispatch() {
    let dispatcher = NifDispatcher::new();
    let result = dispatcher.dispatch(1, b"test_message");

    assert!(result.is_ok());
}
