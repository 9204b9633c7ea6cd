use std::sync::Arc;
use dbgif_protocol::host_services::list::HostListService;
use dbgif_protocol::host_services::version::HostVersionService;
use dbgif_protocol::host_services::HostServiceResponse;
use dbgif_protocol::host_services::is_host_service;
use dbgif_protocol::server::device_registry::{DeviceRegistry, DeviceState, DeviceInfo, DeviceMetadata};

fn test_device(id: &str, state: DeviceState, systemtype: &str, model: &str, version: &str) -> DeviceInfo {
    let mut metadata = DeviceMetadata::default();
    metadata.model = Some(model.to_string());
    metadata.os_version = Some(version.to_string());
    metadata.properties.push(("systemtype".to_string(), systemtype.to_string()));
    DeviceInfo {
        device_id: id.to_string(),
        name: format!("Test Device {}", id),
        address: "127.0.0.1:5555".to_string(),
        state,
        metadata,
    }
}

#[test]
fn test_host_list_service_creation() {
    let registry = Arc::new(DeviceRegistry::new());
    let service = HostListService::new(registry);
    assert_eq!(service.service_name(), "host:list");
}

#[test]
fn test_format_device_line() {
    let line = HostListService::format_device_line("tcp:device001", &DeviceState::Connected, "tizen", "MyBoard", "v1.2");
    assert_eq!(line, "tcp:device001 device tizen MyBoard v1.2");

    let line_offline = HostListService::format_device_line("usb:device123", &DeviceState::Offline, "seret", "DevBoard", "v2.0");
    assert_eq!(line_offline, "usb:device123 offline seret DevBoard v2.0");
}

#[test]
fn test_host_version_service_creation() {
    let service = HostVersionService::new();
    assert_eq!(service.service_name(), "host:version");
    let version = service.version_string();
    assert!(version.contains("dbgif-protocol"));
    assert!(!version.is_empty());
}

#[test]
fn test_custom_version_string() {
    let custom_version = "dbgif-server 2.0.0-beta";
    let service = HostVersionService::with_version(custom_version.to_string());
    assert_eq!(service.version_string(), custom_version);
}

#[test]
fn test_default_implementation() {
    let service1 = HostVersionService::new();
    let service2 = HostVersionService::default();
    assert_eq!(service1.version_string(), service2.version_string());
}

#[test]
fn test_custom_version_response() {
    let service = HostVersionService::with_version("test-server 3.1.4".to_string());
    match service.handle("").unwrap() {
        HostServiceResponse::Okay(data) => assert_eq!(String::from_utf8(data).unwrap(), "test-server 3.1.4"),
        _ => panic!("Expected Okay response"),
    }
}

#[test]
fn test_empty_device_list() {
    let service = HostListService::new(Arc::new(DeviceRegistry::new()));
    match service.handle("").unwrap() {
        HostServiceResponse::Okay(data) => assert!(data.is_empty()),
        _ => panic!("Expected Okay response"),
    }
}

#[test]
fn test_device_list_with_devices() {
    let mut registry = DeviceRegistry::new();
    registry.register_device(test_device("tcp:custom001", DeviceState::Offline, "tizen", "MyBoard", "v1.2")).unwrap();
    registry.register_device(test_device("usb:device123", DeviceState::Connected, "seret", "DevBoard", "v2.0")).unwrap();
    let service = HostListService::new(Arc::new(registry));
    match service.handle("").unwrap() {
        HostServiceResponse::Okay(data) => {
            let response = String::from_utf8(data).unwrap();
            assert_eq!(response, "tcp:custom001 offline tizen MyBoard v1.2\nusb:device123 device seret DevBoard v2.0\n");
        }
        _ => panic!("Expected Okay response"),
    }
}

#[test]
fn test_device_state_mapping() {
    let f = |s: DeviceState| HostListService::format_device_line("test", &s, "type", "model", "ver");
    assert_eq!(f(DeviceState::Connected), "test device type model ver");
    assert_eq!(f(DeviceState::Connecting), "test device type model ver");
    assert_eq!(f(DeviceState::Offline), "test offline type model ver");
    assert_eq!(f(DeviceState::Discovered), "test offline type model ver");
    assert_eq!(f(DeviceState::Disconnecting), "test offline type model ver");
    assert_eq!(f(DeviceState::Error { message: "test error".to_string() }), "test offline type model ver");
}

#[test]
fn test_device_with_missing_metadata() {
    let mut registry = DeviceRegistry::new();
    let mut device = test_device("test:device", DeviceState::Connected, "unknown", "unknown", "unknown");
    device.metadata.model = None;
    device.metadata.os_version = None;
    device.metadata.properties.clear();
    registry.register_device(device).unwrap();
    let service = HostListService::new(Arc::new(registry));
    match service.handle("").unwrap() {
        HostServiceResponse::Okay(data) => assert_eq!(String::from_utf8(data).unwrap(), "test:device device unknown unknown unknown\n"),
        _ => panic!("Expected Okay response"),
    }
}

#[test]
fn free_is_host_service() {
    assert!(is_host_service("host:version"));
    assert!(!is_host_service("shell:ls"));
}

#[test]
fn test_host_service_response_helpers() {
    let ok_str = HostServiceResponse::okay_str("hello");
    match ok_str {
        HostServiceResponse::Okay(data) => {
            assert_eq!(String::from_utf8(data).unwrap(), "hello");
        }
        _ => panic!("Expected Okay response"),
    }
    match HostServiceResponse::okay_empty() {
        HostServiceResponse::Okay(d) => assert!(d.is_empty()),
        _ => panic!("Expected Okay"),
    }
    let close = HostServiceResponse::close("error message");
    match close {
        HostServiceResponse::Close(msg) => {
            assert_eq!(msg, "error message");
        }
        _ => panic!("Expected Close response"),
    }
}

use dbgif_protocol::host_services::{HostService, HostServiceRegistry};
use dbgif_protocol::protocol::error::ProtocolError;

#[derive(Debug)]
struct MockHostService {
    name: String,
    response: HostServiceResponse,
}

impl MockHostService {
    fn new(name: &str, response: HostServiceResponse) -> Self {
        Self { name: name.to_string(), response }
    }
}

impl HostService for MockHostService {
    fn service_name(&self) -> &str {
        &self.name
    }

    fn handle(&self, _args: &str) -> Result<HostServiceResponse, ProtocolError> {
        Ok(self.response.clone())
    }
}

#[test]
fn test_host_service_registry_creation() {
    let registry: HostServiceRegistry<MockHostService> = HostServiceRegistry::new();
    assert_eq!(registry.service_count(), 0);
    assert!(registry.list_services().is_empty());
}

#[test]
fn test_service_registration() {
    let mut registry = HostServiceRegistry::new();
    let service = MockHostService::new("host:test", HostServiceResponse::okay_empty());

    registry.register(service);
    assert_eq!(registry.service_count(), 1);
    assert!(registry.get_service("host:test").is_some());
    assert!(registry.list_services().contains(&"host:test"));
}

#[test]
fn test_service_handling() {
    let mut registry = HostServiceRegistry::new();
    let service = MockHostService::new("host:test", HostServiceResponse::okay_str("test response"));

    registry.register(service);

    let result = registry.handle_service("host:test", "");

    assert!(result.is_ok());
    match result.unwrap() {
        HostServiceResponse::Okay(data) => {
            assert_eq!(String::from_utf8(data).unwrap(), "test response");
        }
        _ => panic!("Expected Okay response"),
    }
}

#[test]
fn test_service_not_found() {
    let registry: HostServiceRegistry<MockHostService> = HostServiceRegistry::new();

    let result = registry.handle_service("host:nonexistent", "");
    assert!(result.is_err());

    match result.unwrap_err() {
        ProtocolError::HostServiceError { service, message } => {
            assert_eq!(service, "host:nonexistent");
            assert_eq!(message, "Service not found");
        }
        _ => panic!("Expected HostServiceError"),
    }
}

#[test]
fn test_is_host_service() {
    assert!(HostServiceRegistry::<MockHostService>::is_host_service("host:list"));
    assert!(HostServiceRegistry::<MockHostService>::is_host_service("host:version"));
    assert!(HostServiceRegistry::<MockHostService>::is_host_service("host:device:123"));
    assert!(!HostServiceRegistry::<MockHostService>::is_host_service("shell"));
    assert!(!HostServiceRegistry::<MockHostService>::is_host_service("tcp:5555"));
    assert!(!HostServiceRegistry::<MockHostService>::is_host_service(""));
}

#[test]
fn test_service_removal() {
    let mut registry = HostServiceRegistry::new();
    let service = MockHostService::new("host:test", HostServiceResponse::okay_empty());

    registry.register(service);
    assert_eq!(registry.service_count(), 1);

    assert!(registry.remove_service("host:test"));
    assert_eq!(registry.service_count(), 0);
    assert!(!registry.remove_service("host:nonexistent"));
}

#[test]
fn registering_a_name_again_replaces_the_service() {
    let mut registry = HostServiceRegistry::new();
    registry.register(MockHostService::new("host:x", HostServiceResponse::okay_str("one")));
    registry.register(MockHostService::new("host:y", HostServiceResponse::okay_str("why")));
    registry.register(MockHostService::new("host:x", HostServiceResponse::okay_str("two")));
    assert_eq!(registry.service_count(), 2);
    assert_eq!(registry.list_services(), vec!["host:x", "host:y"]);
    match registry.handle_service("host:x", "").unwrap() {
        HostServiceResponse::Okay(d) => assert_eq!(d, b"two".to_vec()),
        other => panic!("unexpected {:?}", other),
    }
    registry.clear();
    assert_eq!(registry.service_count(), 0);
}

#[test]
fn built_in_services_register_under_their_names() {
    let mut registry: HostServiceRegistry<Box<dyn HostService>> = HostServiceRegistry::new();
    registry.register(Box::new(HostVersionService::new()));
    assert!(registry.get_service("host:version").is_some());
    match registry.handle_service("host:version", "").unwrap() {
        HostServiceResponse::Okay(d) => assert!(!d.is_empty()),
        other => panic!("unexpected {:?}", other),
    }
}

struct EchoService;

impl HostService for EchoService {
    fn service_name(&self) -> &str {
        "host:echo"
    }

    fn handle(&self, args: &str) -> Result<HostServiceResponse, ProtocolError> {
        Ok(HostServiceResponse::okay_str(args))
    }
}

#[test]
fn registry_hands_the_arguments_to_the_service() {
    let mut registry = HostServiceRegistry::new();
    registry.register(EchoService);
    match registry.handle_service("host:echo", "some args").unwrap() {
        HostServiceResponse::Okay(data) => assert_eq!(String::from_utf8(data).unwrap(), "some args"),
        _ => panic!("Expected Okay response"),
    }
    let reply = dbgif_protocol::server::dispatcher::run_host_service(&registry, 4, 9, "host:echo", "xy");
    assert_eq!(reply.len(), 3);
    assert_eq!(reply[1].data, b"xy".to_vec());
}
