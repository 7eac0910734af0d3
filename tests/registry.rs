use avmnif::registry::{MockResourceManager, ResourceError, ResourceTypeInit};

fn init(dtor: bool, down: bool) -> ResourceTypeInit {
    ResourceTypeInit { dtor, stop: false, down }
}

#[test]
fn register_type_names() {
    let mut m = MockResourceManager::new();
    assert_eq!(m.init_resource_type("counter", init(true, false)), Ok(0));
    assert_eq!(m.init_resource_type("buffer", init(false, false)), Ok(1));
    assert_eq!(m.init_resource_type("counter", init(true, false)), Err(ResourceError::DuplicateName));
    assert_eq!(m.init_resource_type("", init(true, false)), Err(ResourceError::InvalidName));
    let long = "x".repeat(256);
    assert_eq!(m.init_resource_type(&long, init(true, false)), Err(ResourceError::InvalidName));
    let max = "y".repeat(255);
    assert_eq!(m.init_resource_type(&max, init(true, false)), Ok(2));
    assert_eq!(m.get_resource_type_count(), 3);
    assert!(m.verify_init_called("buffer"));
    assert!(!m.verify_init_called("other"));
    m.set_fail_init(true);
    assert_eq!(m.init_resource_type("later", init(true, false)), Err(ResourceError::InitializationFailed));
}

#[test]
fn allocate_errors() {
    let mut m = MockResourceManager::new().with_max_resources(1);
    let t = m.init_resource_type("counter", init(true, false)).unwrap();
    assert_eq!(m.alloc_resource(t, 0), Err(ResourceError::ZeroSize));
    assert_eq!(m.alloc_resource(t + 1, 4), Err(ResourceError::UnknownType));
    let r = m.alloc_resource(t, 4).unwrap();
    assert_eq!(m.state.resources[0].data, vec![0u8; 4]);
    assert_eq!(m.get_resource_ref_count(r), Some(1));
    assert_eq!(m.alloc_resource(t, 4), Err(ResourceError::CapacityExceeded));
    assert_eq!(m.get_alloc_call_count(), 1);
}

#[test]
fn reference_counting_keeps_and_releases() {
    let mut m = MockResourceManager::new();
    let t = m.init_resource_type("counter", init(true, false)).unwrap();
    let r = m.alloc_resource(t, 8).unwrap();
    m.keep_resource(r).unwrap();
    m.keep_resource(r).unwrap();
    assert_eq!(m.get_resource_ref_count(r), Some(3));
    m.release_resource(r).unwrap();
    m.release_resource(r).unwrap();
    assert_eq!(m.get_resource_ref_count(r), Some(1));
    assert!(!m.verify_destructor_called(r));
    m.release_resource(r).unwrap();
    assert_eq!(m.get_resource_ref_count(r), None);
    assert!(m.verify_destructor_called(r));
    assert_eq!(m.get_destructor_call_count(), 1);
}

#[test]
fn release_after_destruction_is_unknown() {
    let mut m = MockResourceManager::new();
    let t = m.init_resource_type("counter", init(true, false)).unwrap();
    let r = m.alloc_resource(t, 8).unwrap();
    m.release_resource(r).unwrap();
    assert_eq!(m.release_resource(r), Err(ResourceError::UnknownResource));
    assert_eq!(m.release_resource(r), Err(ResourceError::UnknownResource));
    assert_eq!(m.keep_resource(r), Err(ResourceError::UnknownResource));
    assert_eq!(m.get_destructor_call_count(), 1);
    let again = m.alloc_resource(t, 8).unwrap();
    assert_ne!(again, r);
}

#[test]
fn type_without_destructor() {
    let mut m = MockResourceManager::new();
    let t = m.init_resource_type("plain", init(false, false)).unwrap();
    let r = m.alloc_resource(t, 1).unwrap();
    m.release_resource(r).unwrap();
    assert_eq!(m.get_resource_count(), 0);
    assert_eq!(m.get_destructor_call_count(), 0);
}

#[test]
fn wrap_and_resolve() {
    let mut m = MockResourceManager::new();
    let a = m.init_resource_type("a", init(true, false)).unwrap();
    let b = m.init_resource_type("b", init(true, false)).unwrap();
    let r = m.alloc_resource(a, 4).unwrap();
    let t1 = m.make_resource(r).unwrap();
    let t2 = m.make_resource(r).unwrap();
    assert_eq!(t1, 0x12340000);
    assert_eq!(t2, 0x12340001);
    assert_eq!(m.get_resource(t1, a), Ok(r));
    assert_eq!(m.get_resource(t2, a), Ok(r));
    assert_eq!(m.get_resource(t1, b), Err(ResourceError::TypeMismatch));
    assert_eq!(m.get_resource(0x99, a), Err(ResourceError::NotFound));
    assert_eq!(m.get_resource(t1, 7), Err(ResourceError::UnknownType));
    assert_eq!(m.make_resource(r + 10), Err(ResourceError::UnknownResource));
    m.release_resource(r).unwrap();
    assert_eq!(m.get_resource(t1, a), Err(ResourceError::NotFound));
}

#[test]
fn destroying_tears_down_monitors() {
    let mut m = MockResourceManager::new();
    let t = m.init_resource_type("watched", init(true, true)).unwrap();
    let r = m.alloc_resource(t, 4).unwrap();
    let other = m.alloc_resource(t, 4).unwrap();
    m.monitor_process(r, 10).unwrap();
    m.monitor_process(r, 11).unwrap();
    m.monitor_process(r, 12).unwrap();
    m.monitor_process(other, 10).unwrap();
    assert_eq!(m.get_monitor_count(), 4);
    m.release_resource(r).unwrap();
    assert_eq!(m.get_monitor_count(), 1);
    assert_eq!(m.state.demonitor_calls.len(), 3);
    assert!(m.state.monitors.iter().all(|(_, mon)| mon.resource_id == other));
}

#[test]
fn monitor_then_owner_down() {
    let mut m = MockResourceManager::new();
    let t = m.init_resource_type("watched", init(true, true)).unwrap();
    let r = m.alloc_resource(t, 4).unwrap();
    let mid = m.monitor_process(r, 42).unwrap();
    assert_eq!(m.get_monitor_count(), 1);
    assert_eq!(m.notify_process_down(42), 1);
    assert_eq!(m.get_monitor_count(), 0);
    assert!(m.state.monitors.iter().all(|(_, mon)| mon.resource_id != r));
    assert_eq!(m.state.down_calls, vec![(r, 42)]);
    assert_eq!(m.notify_process_down(42), 0);
    assert_eq!(m.demonitor_process(mid), Err(ResourceError::UnknownMonitor));
}

#[test]
fn down_callback_only_when_type_has_one() {
    let mut m = MockResourceManager::new();
    let t = m.init_resource_type("quiet", init(true, false)).unwrap();
    let r = m.alloc_resource(t, 4).unwrap();
    m.monitor_process(r, 5).unwrap();
    assert_eq!(m.notify_process_down(5), 1);
    assert!(m.state.down_calls.is_empty());
}

#[test]
fn demonitor_and_limits() {
    let mut m = MockResourceManager::new().with_max_monitors(1);
    let t = m.init_resource_type("w", init(true, false)).unwrap();
    let r = m.alloc_resource(t, 4).unwrap();
    let mid = m.monitor_process(r, 1).unwrap();
    assert_eq!(m.monitor_process(r, 2), Err(ResourceError::CapacityExceeded));
    assert_eq!(m.monitor_process(r + 5, 2), Err(ResourceError::UnknownResource));
    m.demonitor_process(mid).unwrap();
    assert_eq!(m.get_monitor_count(), 0);
    assert_eq!(m.demonitor_process(mid), Err(ResourceError::UnknownMonitor));
}

#[test]
fn select_and_simulated_destruction() {
    let mut m = MockResourceManager::new();
    let t = m.init_resource_type("s", init(false, false)).unwrap();
    let r = m.alloc_resource(t, 4).unwrap();
    assert_eq!(m.select(1, 2, r), Ok(()));
    assert_eq!(m.state.select_calls, vec![(1, 2, r)]);
    m.monitor_process(r, 3).unwrap();
    m.simulate_destructor_call(r);
    assert!(m.verify_destructor_called(r));
    assert_eq!(m.get_monitor_count(), 0);
    assert_eq!(m.select(1, 2, r), Err(ResourceError::UnknownResource));
}
