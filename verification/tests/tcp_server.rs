use dbgif_protocol::config::SocketAddress;
use dbgif_protocol::server::tcp_server::{AdbServerConfig, AdbTcpServer};
use dbgif_protocol::session::manager::AdbSessionManager;

fn localhost(port: u16) -> SocketAddress {
    SocketAddress { host: "127.0.0.1".to_string(), port }
}

#[test]
fn test_server_creation() {
    let server = AdbTcpServer::new(localhost(0), AdbSessionManager::new());
    let stats = server.get_stats();
    assert_eq!(stats.active_connections, 0);
    assert_eq!(stats.max_connections, 100);
}

#[test]
fn test_server_config() {
    let config = AdbServerConfig::default();
    assert_eq!(config.bind_addr.port(), 5037);
    assert_eq!(config.max_connections, 100);

    let dev_config = AdbServerConfig::development();
    assert_eq!(dev_config.connection_timeout_ms, 60_000);

    let prod_config = AdbServerConfig::production();
    assert_eq!(prod_config.bind_addr.host, "0.0.0.0");
}

#[test]
fn test_config_build_server() {
    let config = AdbServerConfig::development();
    let server = config.build_server();
    let stats = server.get_stats();
    assert_eq!(stats.max_connections, 50);
    assert_eq!(stats.connection_timeout_ms, 60_000);
}

#[test]
fn admission_stops_at_the_limit() {
    let mut server = AdbTcpServer::with_config(localhost(5037), AdbSessionManager::new(), 1_000, 2);
    assert!(server.admit_connection());
    assert!(server.admit_connection());
    assert!(!server.admit_connection());
    assert_eq!(server.get_stats().active_connections, 2);
    server.connection_closed();
    assert_eq!(server.get_stats().active_connections, 1);
    assert!(server.admit_connection());
    server.connection_closed();
    server.connection_closed();
    server.connection_closed();
    assert_eq!(server.get_stats().active_connections, 0);
}

#[test]
fn production_preset_values() {
    let config = AdbServerConfig::production();
    assert_eq!(config.bind_addr.port(), 5037);
    assert_eq!(config.connection_timeout_ms, 15_000);
    assert_eq!(config.max_connections, 200);
    assert_eq!(config.session_timeout_ms, 180_000);
    assert_eq!(config.max_sessions, 100);
}
