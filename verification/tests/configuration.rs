use portfolio_manager::ibkr::IbClientConfig;

#[test]
fn test_default_configuration() {
    // Test default method for creating a default configuration.
    let config = IbClientConfig::default();

    assert_eq!(config.host, "127.0.0.1");
    assert_eq!(config.port, 4002); // Paper trading default port
    assert_eq!(config.client_id, 0);
}

#[test]
fn test_new_configuration() {
    // Test new method for creating a custom configuration.
    let config = IbClientConfig::new("192.168.1.10", 1234, 42);

    assert_eq!(config.host, "192.168.1.10");
    assert_eq!(config.port, 1234);
    assert_eq!(config.client_id, 42);
}

#[test]
fn test_get_address() {
    // Ensure the get_address method returns the correct formatted string.
    let config = IbClientConfig::new("10.0.0.1", 8080, 1);

    assert_eq!(config.get_address(), "10.0.0.1:8080");
}

#[test]
fn test_eq_for_custom_configs() {
    // Verify equality comparisons if the struct behavior changes in future
    let config1 = IbClientConfig::new("localhost", 8000, 10);
    let config2 = IbClientConfig::new("localhost", 8000, 10);

    assert_eq!(config1.host, config2.host);
    assert_eq!(config1.port, config2.port);
    assert_eq!(config1.client_id, config2.client_id);
}

#[test]
fn test_clone_configuration() {
    // Ensure that cloning works correctly with no data loss.
    let config = IbClientConfig::new("127.0.0.1", 5000, 2);
    let cloned_config = config.clone();

    assert_eq!(config.host, cloned_config.host);
    assert_eq!(config.port, cloned_config.port);
    assert_eq!(config.client_id, cloned_config.client_id);
}

#[test]
fn address_of_small_and_large_ports() {
    assert_eq!(IbClientConfig::new("h", 0, 0).get_address(), "h:0");
    assert_eq!(IbClientConfig::new("h", 9, 0).get_address(), "h:9");
    assert_eq!(IbClientConfig::new("h", 10, 0).get_address(), "h:10");
    assert_eq!(IbClientConfig::new("h", 65535, 0).get_address(), "h:65535");
    assert_eq!(IbClientConfig::new("", 4001, 0).get_address(), ":4001");
}

#[test]
fn default_address_is_local_paper_port() {
    assert_eq!(IbClientConfig::default().get_address(), "127.0.0.1:4002");
}
