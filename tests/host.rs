use avmnif::host::{Host, VmConfig};

#[test]
fn test_host_creation() {
    let config = VmConfig::default_with_bytecode("test.avm");
    let host = Host::new(config);

    assert!(!host.is_initialized());
    assert_eq!(host.modules().len(), 0);
}

#[test]
fn test_host_initialize() {
    let config = VmConfig::default_with_bytecode("test.avm");
    let mut host = Host::new(config);

    let result = host.initialize();
    assert!(result.is_ok());
    assert!(host.is_initialized());
}

#[test]
fn test_host_cannot_double_init() {
    let config = VmConfig::default_with_bytecode("test.avm");
    let mut host = Host::new(config);

    let _ = host.initialize();
    let result = host.initialize();

    assert!(result.is_err());
}

#[test]
fn test_host_load_module_requires_init() {
    let config = VmConfig::default_with_bytecode("test.avm");
    let mut host = Host::new(config);

    let result = host.load_module("worker.avm");
    assert!(result.is_err());
}

#[test]
fn test_host_load_module_after_init() {
    let config = VmConfig::default_with_bytecode("test.avm");
    let mut host = Host::new(config);

    let _ = host.initialize();
    let result = host.load_module("worker.avm");

    assert!(result.is_ok());
    assert_eq!(host.modules().len(), 1);
}
