use avmnif::host::HostError;

#[test]
fn test_host_error_messages() {
    assert_eq!(HostError::NotInitialized.message(), "Host not initialized");
    assert_eq!(HostError::ModuleNotFound.message(), "Module not found");
}
