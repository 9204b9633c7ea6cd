use dbgif_protocol::protocol::error::ProtocolError;
use dbgif_protocol::server::device_manager::{ConnectPlan, ConnectResult, ConnectionHealth, DeviceManager, DiscoveryConfig};
use dbgif_protocol::server::device_registry::{DeviceInfo, DeviceMetadata, DeviceRegistry, DeviceState, RegistryError};

fn device(id: &str, address: &str) -> DeviceInfo {
    DeviceInfo {
        device_id: id.to_string(),
        name: format!("Device {}", id),
        address: address.to_string(),
        state: DeviceState::Discovered,
        metadata: DeviceMetadata::default(),
    }
}

fn create_test_manager() -> DeviceManager {
    DeviceManager::new(DeviceRegistry::new(), vec![5555, 5556, 5557], 30_000)
}

#[test]
fn test_device_manager_creation() {
    let manager = create_test_manager();
    assert_eq!(manager.get_connected_devices().len(), 0);
}

#[test]
fn test_device_discovery() {
    let mut manager = create_test_manager();
    assert_eq!(
        manager.discovery_addresses(),
        vec!["127.0.0.1:5555".to_string(), "127.0.0.1:5556".to_string(), "127.0.0.1:5557".to_string()]
    );
    let found = manager.discover_devices(&vec![false, true, false]);
    assert_eq!(found, vec!["device-127.0.0.1:5556".to_string()]);
    assert_eq!(manager.device_registry.get_device("device-127.0.0.1:5556").unwrap().state, DeviceState::Discovered);
    // a second scan registers nothing new
    assert!(manager.discover_devices(&vec![false, true, false]).is_empty());
}

#[test]
fn device_manager_test_connection_limits() {
    let mut discovery_config = DiscoveryConfig::default();
    discovery_config.max_device_connections = 0;

    let manager = DeviceManager::with_config(DeviceRegistry::new(), discovery_config);

    let result = manager.connect_device("test-device");
    assert!(result.is_err());
    assert_eq!(result.unwrap_err(), ProtocolError::MaxConnectionsExceeded { count: 0, max: 0 });
}

#[test]
fn test_device_stats() {
    let manager = create_test_manager();
    assert!(manager.get_device_stats("nonexistent", 0).is_none());
}

#[test]
fn test_lazy_connection() {
    let manager = create_test_manager();
    match manager.connect_device("test-device") {
        Err(ProtocolError::DeviceNotFound { device_id }) => assert_eq!(device_id, "test-device"),
        other => panic!("unexpected {:?}", other),
    }
}

#[test]
fn connecting_a_registered_device_step_by_step() {
    let mut registry = DeviceRegistry::new();
    registry.register_device(device("dev1", "10.0.0.1:5555")).unwrap();
    let mut manager = DeviceManager::with_config(registry, DiscoveryConfig::default());

    match manager.connect_device("dev1").unwrap() {
        ConnectPlan::Connect { address } => assert_eq!(address, "10.0.0.1:5555"),
        other => panic!("unexpected {:?}", other),
    }
    assert_eq!(
        manager.finish_connect("dev1", ConnectResult::TimedOut, 0),
        Err(ProtocolError::Timeout { timeout_ms: 5_000 })
    );
    manager.finish_connect("dev1", ConnectResult::Connected, 100).unwrap();
    assert!(matches!(manager.connect_device("dev1"), Ok(ConnectPlan::AlreadyConnected)));
    assert_eq!(manager.get_connected_devices(), vec!["dev1".to_string()]);
    assert_eq!(manager.device_registry.get_device("dev1").unwrap().state, DeviceState::Connected);

    let stats = manager.get_device_stats("dev1", 1100).unwrap();
    assert_eq!(stats.connected_at_ms, 100);
    assert_eq!(stats.uptime_ms, 1000);
    assert!(stats.is_healthy());
    assert_eq!(stats.inactive_duration(1100), 1000);

    assert!(manager.check_device_health("dev1", true));
    assert!(!manager.check_device_health("dev1", false));
    assert!(manager.get_connected_devices().is_empty());
    assert_eq!(manager.device_registry.get_device("dev1").unwrap().state, DeviceState::Discovered);
    assert!(!manager.disconnect_device("dev1"));
}

#[test]
fn failed_connection_reports_the_reason() {
    let mut registry = DeviceRegistry::new();
    registry.register_device(device("dev2", "10.0.0.2:5555")).unwrap();
    let mut manager = DeviceManager::with_config(registry, DiscoveryConfig::default());
    match manager.finish_connect("dev2", ConnectResult::Failed { reason: "refused".to_string() }, 0) {
        Err(ProtocolError::DeviceConnectionFailed { device_id, reason }) => {
            assert_eq!(device_id, "dev2");
            assert_eq!(reason, "refused");
        }
        other => panic!("unexpected {:?}", other),
    }
    assert!(manager.get_connected_devices().is_empty());
}

#[test]
fn disconnect_marks_the_device_discovered() {
    let mut registry = DeviceRegistry::new();
    registry.register_device(device("dev3", "10.0.0.3:5555")).unwrap();
    let mut manager = DeviceManager::with_config(registry, DiscoveryConfig::default());
    manager.finish_connect("dev3", ConnectResult::Connected, 0).unwrap();
    assert!(manager.disconnect_device("dev3"));
    assert_eq!(manager.device_registry.get_device("dev3").unwrap().state, DeviceState::Discovered);
    assert_eq!(manager.inactive_devices(10), Vec::<String>::new());
}

#[test]
fn connection_health_variants() {
    assert_ne!(ConnectionHealth::Healthy, ConnectionHealth::Degraded { reason: "slow".to_string() });
}

#[test]
fn registry_refuses_duplicates_and_unknown_ids() {
    let mut registry = DeviceRegistry::new();
    registry.register_device(device("a", "1.1.1.1:1")).unwrap();
    assert_eq!(
        registry.register_device(device("a", "2.2.2.2:2")),
        Err(RegistryError::AlreadyRegistered("a".to_string()))
    );
    assert_eq!(registry.update_device_state("b", DeviceState::Offline), Err(RegistryError::NotFound("b".to_string())));
    registry.update_device_state("a", DeviceState::Offline).unwrap();
    assert_eq!(registry.get_device("a").unwrap().state, DeviceState::Offline);
    assert_eq!(registry.list_devices().len(), 1);
    let removed = registry.unregister_device("a").unwrap();
    assert_eq!(removed.address, "1.1.1.1:1");
    assert!(registry.unregister_device("a").is_err());
    assert!(registry.list_devices().is_empty());
}

#[test]
fn temporary_devices_of_a_session_are_removed() {
    let mut registry = DeviceRegistry::new();
    let mut t = device("tmp", "3.3.3.3:3");
    t.metadata.properties.push(("temporary".to_string(), "true".to_string()));
    t.metadata.properties.push(("session_id".to_string(), "s1".to_string()));
    registry.register_device(t).unwrap();
    registry.register_device(device("keep", "4.4.4.4:4")).unwrap();
    registry.remove_temporary_of("s2");
    assert_eq!(registry.list_devices().len(), 2);
    registry.remove_temporary_of("s1");
    assert_eq!(registry.list_devices().len(), 1);
    assert_eq!(registry.list_devices()[0].device_id, "keep");
}

#[test]
fn discovery_registers_each_new_id_once_in_port_order() {
    let mut manager = DeviceManager::new(DeviceRegistry::new(), vec![5558, 5555, 5558, 5556], 30_000);
    manager.device_registry.register_device(device("device-127.0.0.1:5556", "127.0.0.1:5556")).unwrap();
    let found = manager.discover_devices(&vec![true, true, true, true]);
    assert_eq!(found, vec!["device-127.0.0.1:5558".to_string(), "device-127.0.0.1:5555".to_string()]);
    let d = manager.device_registry.get_device("device-127.0.0.1:5555").unwrap();
    assert_eq!(d.name, "TCP Device at 127.0.0.1:5555");
    assert_eq!(d.address, "127.0.0.1:5555");
}
