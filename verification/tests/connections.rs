use dbgif_protocol::protocol::error::ProtocolError;
use dbgif_protocol::server::connection_manager::ConnectionManager;
use dbgif_protocol::server::state::{ServerConfig, ServerState};
use dbgif_protocol::transport::TransportAddress;

fn create_test_manager() -> ConnectionManager {
    ConnectionManager::new(ServerState::new(ServerConfig::from_tcp_addr("127.0.0.1:0".to_string())))
}

#[test]
fn test_connection_manager_creation() {
    let manager = create_test_manager();
    let stats = manager.stats(0);
    assert_eq!(stats.active_connections, 0);
    assert_eq!(stats.total_connections, 0);
}

#[test]
fn test_connection_acceptance() {
    let mut manager = create_test_manager();

    let result = manager.accept_connection("tcp://127.0.0.1:12345->127.0.0.1:5555".to_string(), 0);
    assert!(result.is_ok());

    let session_id = result.unwrap();
    assert!(session_id.starts_with("session-"));

    let stats = manager.stats(0);
    assert_eq!(stats.active_connections, 1);
    assert_eq!(stats.total_connections, 1);
}

#[test]
fn connection_manager_test_connection_limits() {
    let mut config = ServerConfig::from_tcp_addr("127.0.0.1:0".to_string());
    config.max_connections = 1;
    let mut manager = ConnectionManager::new(ServerState::new(config));

    assert!(manager.accept_connection("tcp://127.0.0.1:12345->127.0.0.1:5555".to_string(), 0).is_ok());

    let result2 = manager.accept_connection("tcp://127.0.0.1:12346->127.0.0.1:5555".to_string(), 0);
    match result2 {
        Err(ProtocolError::MaxConnectionsExceeded { count, max }) => {
            assert_eq!(count, 1);
            assert_eq!(max, 1);
        }
        other => panic!("Expected MaxConnectionsExceeded error, got {:?}", other),
    }
}

#[test]
fn test_connection_cleanup() {
    let mut manager = create_test_manager();
    let session_id = manager.accept_connection("tcp://127.0.0.1:12345->127.0.0.1:5555".to_string(), 0).unwrap();

    assert_eq!(manager.stats(0).active_connections, 1);

    assert!(manager.close_connection(&session_id));

    let stats_after = manager.stats(0);
    assert_eq!(stats_after.active_connections, 0);
    assert_eq!(stats_after.total_connections, 1); // Total doesn't decrease
    assert!(!manager.close_connection(&session_id));
}

#[test]
fn test_activity_tracking() {
    let mut manager = create_test_manager();
    let session_id = manager.accept_connection("c".to_string(), 0).unwrap();

    manager.update_activity(&session_id, 40_000);
    assert_eq!(manager.connections()[0].last_activity_ms, 40_000);
    assert_eq!(manager.connections()[0].established_at_ms, 0);
}

#[test]
fn test_session_retrieval() {
    let mut manager = create_test_manager();
    let session_id = manager.accept_connection("c".to_string(), 0).unwrap();
    let result = manager.get_session_info(&session_id);
    assert!(result.is_ok());
    let session = result.unwrap();
    assert_eq!(session.session_id, session_id);
}

#[test]
fn inactive_sessions_and_ages() {
    let mut manager = create_test_manager();
    let a = manager.accept_connection("a".to_string(), 0).unwrap();
    let b = manager.accept_connection("b".to_string(), 10_000).unwrap();
    assert_eq!((a.as_str(), b.as_str()), ("session-0", "session-1"));
    // the default connection timeout is 30 s
    assert!(manager.inactive_sessions(30_000).is_empty());
    assert_eq!(manager.inactive_sessions(30_001), vec![a.clone()]);
    manager.update_activity(&a, 30_000);
    assert_eq!(manager.inactive_sessions(40_001), vec![b.clone()]);
    let stats = manager.stats(40_000);
    assert_eq!(stats.oldest_connection_age_ms, 40_000);
    assert_eq!(stats.avg_connection_age_ms, 35_000);
}

#[test]
fn session_info_lookup() {
    let mut manager = create_test_manager();
    let id = manager.accept_connection("conn".to_string(), 5).unwrap();
    let record = manager.get_session_info(&id).unwrap();
    assert_eq!(record.connection_id, "conn");
    assert_eq!(record.established_at_ms, 5);
    match manager.get_session_info("nobody") {
        Err(ProtocolError::SessionNotFound { session_id }) => assert_eq!(session_id, "nobody"),
        other => panic!("unexpected {:?}", other),
    }
}

#[test]
fn test_transport_address_config() {
    // TCP address
    let config = ServerConfig::from_tcp_addr("127.0.0.1:8080".to_string());
    assert_eq!(config.bind_address_str(), "tcp://127.0.0.1:8080");

    // USB address
    let usb_addr = TransportAddress::Usb {
        vendor_id: 0x1234,
        product_id: 0x5678,
        serial: Some("ABC123".to_string()),
    };
    let config = ServerConfig::new(usb_addr);
    assert_eq!(config.bind_address_str(), "usb://4660:22136:ABC123");
}

#[test]
fn usb_address_without_serial() {
    let addr = TransportAddress::Usb { vendor_id: 1, product_id: 2, serial: None };
    assert_eq!(addr.to_string(), "usb://1:2");
    assert_eq!(dbgif_protocol::transport::usb_device_id(Some("SER1"), 3, 7), "SER1");
    assert_eq!(dbgif_protocol::transport::usb_device_id(None, 3, 7), "3:7");
}
