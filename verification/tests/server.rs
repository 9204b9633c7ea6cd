use dbgif_protocol::server::host_commands::{parse_device_selector, validate_device_state, format_device_long, DeviceSelector, AdbDeviceInfo, DeviceState};
use dbgif_protocol::server::shutdown::{ShutdownReason, ShutdownPhase};
use dbgif_protocol::server::stream::{StreamType, StreamBuffer, BufferOverflowBehavior};
use dbgif_protocol::transport::TransportType;

#[test]
fn test_device_selector_parsing() {
    assert!(matches!(parse_device_selector("serial:ABC123"), Some(DeviceSelector::Serial(_))));
    assert!(matches!(parse_device_selector("usb:001-004"), Some(DeviceSelector::Usb(_))));
    assert!(matches!(parse_device_selector("transport:device001"), Some(DeviceSelector::DeviceId(_))));
    assert_eq!(parse_device_selector("invalid"), None);
}

#[test]
fn test_device_state_validation() {
    assert!(validate_device_state("device"));
    assert!(validate_device_state("offline"));
    assert!(validate_device_state("unauthorized"));
    assert!(!validate_device_state("invalid_state"));
}

#[test]
fn test_device_formatting() {
    let device = AdbDeviceInfo {
        device_id: "test_device_001".to_string(),
        transport_id: "1".to_string(),
        state: DeviceState::Online,
        transport_type: TransportType::Tcp,
        serial_number: Some("ABC123DEF456".to_string()),
        product: Some("test_product".to_string()),
        model: Some("TestModel".to_string()),
        device_name: Some("test_device".to_string()),
        usb_info: None,
    };
    let formatted = format_device_long(&device);
    assert!(formatted.contains("test_device_001"));
    assert!(formatted.contains("device"));
    assert!(formatted.contains("product:test_product"));
}

#[test]
fn test_shutdown_reason_equality() {
    assert_eq!(ShutdownReason::Graceful, ShutdownReason::Graceful);
    assert_ne!(ShutdownReason::Graceful, ShutdownReason::Emergency);
}

#[test]
fn test_shutdown_phase_equality() {
    assert_eq!(ShutdownPhase::Running, ShutdownPhase::Running);
    assert_ne!(ShutdownPhase::Running, ShutdownPhase::Complete);
}

#[test]
fn test_stream_type_detection() {
    assert_eq!(StreamType::from_service_name("shell"), StreamType::Shell);
    assert_eq!(StreamType::from_service_name("host:version"), StreamType::HostService);
    if let StreamType::PortForward { local_port, remote_port } = StreamType::from_service_name("tcp:8080:80") {
        assert_eq!(local_port, 8080);
        assert_eq!(remote_port, 80);
    } else {
        panic!("Expected PortForward type");
    }
}

#[test]
fn test_stream_type_other_services() {
    assert_eq!(StreamType::from_service_name("sync:"), StreamType::FileTransfer);
    assert_eq!(StreamType::from_service_name("tcp:8080"), StreamType::Custom("tcp:8080".to_string()));
    assert_eq!(StreamType::from_service_name("tcp:1:2:3"), StreamType::Custom("tcp:1:2:3".to_string()));
    assert_eq!(StreamType::from_service_name("tcp:70000:80"), StreamType::Custom("tcp:70000:80".to_string()));
    assert_eq!(StreamType::from_service_name("tcp:+8:80"), StreamType::PortForward { local_port: 8, remote_port: 80 });
    assert_eq!(StreamType::from_service_name("jdwp:1"), StreamType::Custom("jdwp:1".to_string()));
}

#[test]
fn test_stream_buffer() {
    let mut buffer = StreamBuffer::new(1024);
    let data = b"test data";
    let written = buffer.write_incoming(data).unwrap();
    assert_eq!(written, data.len());
    let mut read_buffer = vec![0u8; 1024];
    let read_bytes = buffer.read_incoming(&mut read_buffer);
    assert_eq!(read_bytes, data.len());
    assert_eq!(&read_buffer[..read_bytes], data);
}

#[test]
fn test_stream_buffer_overflow_policies() {
    let mut b = StreamBuffer::new(4);
    assert_eq!(b.write_incoming(b"abc").unwrap(), 3);
    assert_eq!(b.write_incoming(b"de").unwrap(), 2);
    assert_eq!(b.incoming, b"bcde".to_vec());
    assert_eq!(b.stats.overflow_count, 1);

    let mut n = StreamBuffer::new(4);
    n.capacity.overflow_behavior = BufferOverflowBehavior::DropNewest;
    assert_eq!(n.write_incoming(b"abc").unwrap(), 3);
    assert_eq!(n.write_incoming(b"de").unwrap(), 1);
    assert_eq!(n.incoming, b"abcd".to_vec());

    let mut e = StreamBuffer::new(4);
    e.capacity.overflow_behavior = BufferOverflowBehavior::Error;
    assert_eq!(e.write_incoming(b"abc").unwrap(), 3);
    assert!(e.write_incoming(b"de").is_err());
    assert_eq!(e.incoming, b"abc".to_vec());
}

use dbgif_protocol::server::ascii_handler::AsciiHandler;
use dbgif_protocol::server::host_commands::HostCommandResponse;
use dbgif_protocol::server::state::{ServerConfig, ServerConfigError, ServerState, ServerStateError, ServerStats};

fn create_test_config() -> ServerConfig {
    ServerConfig::from_tcp_addr("127.0.0.1:0".to_string())
}

#[test]
fn test_okay_response() {
    let handler = AsciiHandler::new("test-session".to_string());
    let response = handler.create_okay_response(b"test");
    assert_eq!(&response[0..4], b"OKAY");
    assert_eq!(&response[4..8], b"0004");
    assert_eq!(&response[8..], b"test");
}

#[test]
fn test_fail_response() {
    let handler = AsciiHandler::new("test-session".to_string());
    let response = handler.create_fail_response("error");
    assert_eq!(&response[0..4], b"FAIL");
    assert_eq!(&response[4..8], b"0005");
    assert_eq!(&response[8..], b"error");
}

#[test]
fn okay_response_length_grows_past_four_digits() {
    let handler = AsciiHandler::new("s".to_string());
    let data = vec![b'x'; 0x12345];
    let response = handler.create_okay_response(&data);
    assert_eq!(&response[4..9], b"12345");
    assert_eq!(response.len(), 4 + 5 + 0x12345);
}

#[test]
fn test_host_command_response_to_adb_data() {
    let data_response = HostCommandResponse::Data { data: b"test data".to_vec() };
    assert_eq!(data_response.to_adb_data(), b"test data".to_vec());

    let error_response = HostCommandResponse::Error { message: "test error".to_string() };
    let expected_fail = format!("FAIL{:04x}test error", 10);
    assert_eq!(error_response.to_adb_data(), expected_fail.into_bytes());
}

#[test]
fn test_server_state_creation() {
    let config = create_test_config();
    let state = ServerState::new(config);

    // no session is open yet
    assert_eq!(state.stats.active_sessions, 0);
    assert!(state.can_accept_connection(0));
    assert!(state.uptime().as_nanos() > 0);
}

#[test]
fn test_session_id_generation() {
    let config = create_test_config();
    let mut state = ServerState::new(config);

    let id1 = state.next_session_id();
    let id2 = state.next_session_id();

    assert_ne!(id1, id2);
    assert!(id1.starts_with("session-"));
    assert!(id2.starts_with("session-"));
    assert_eq!(id1, "session-0");
    assert_eq!(id2, "session-1");
}

#[test]
fn test_stream_id_generation() {
    let config = create_test_config();
    let mut state = ServerState::new(config);

    let id1 = state.next_stream_id();
    let id2 = state.next_stream_id();

    assert_ne!(id1, id2);
    assert!(id1 >= 1 && id1 <= 65535);
    assert!(id2 >= 1 && id2 <= 65535);
}

#[test]
fn stream_ids_wrap_after_65535() {
    let mut state = ServerState::new(create_test_config());
    state.stream_counter = 65534;
    assert_eq!(state.next_stream_id(), 65535);
    assert_eq!(state.next_stream_id(), 1);
}

#[test]
fn test_server_config_validation() {
    let mut config = create_test_config();
    assert!(config.validate().is_ok());

    config.max_connections = 0;
    assert!(config.validate().is_err());

    config.max_connections = 1001;
    assert!(config.validate().is_err());

    config.max_connections = 100;
    assert!(config.validate().is_ok());

    config.connection_timeout_ms = 0;
    assert!(config.validate().is_err());

    config.connection_timeout_ms = 30_000;
    assert!(config.validate().is_ok());

    config.tcp_discovery_ports.clear();
    assert!(config.validate().is_err());

    config.tcp_discovery_ports = vec![5555, 5556, 5555]; // Duplicate
    assert!(config.validate().is_err());

    config.tcp_discovery_ports = vec![5555, 5556, 5557];
    assert!(config.validate().is_ok());
}

#[test]
fn server_config_errors_name_the_rule() {
    let mut config = create_test_config();
    config.max_connections = 0;
    assert_eq!(config.validate(), Err(ServerConfigError::InvalidMaxConnections(0)));
    config.max_connections = 10;
    config.ping_interval_ms = 999;
    assert_eq!(config.validate(), Err(ServerConfigError::InvalidTimeout("ping_interval".to_string())));
    config.ping_interval_ms = 1000;
    config.tcp_discovery_ports.clear();
    assert_eq!(config.validate(), Err(ServerConfigError::EmptyDiscoveryPorts));
    config.tcp_discovery_ports = vec![1, 1];
    assert_eq!(config.validate(), Err(ServerConfigError::DuplicateDiscoveryPorts));
}

#[test]
fn test_server_config_default() {
    let config = ServerConfig::default();
    assert!(config.validate().is_ok());
    assert_eq!(config.max_connections, 100);
    assert!(!config.tcp_discovery_ports.is_empty());
}

#[test]
fn test_server_stats() {
    let mut stats = ServerStats::new();

    let snapshot = stats.snapshot();
    assert_eq!(snapshot.total_sessions, 0);
    assert_eq!(snapshot.active_sessions, 0);

    stats.session_created();
    stats.session_created();
    let snapshot = stats.snapshot();
    assert_eq!(snapshot.total_sessions, 2);
    assert_eq!(snapshot.active_sessions, 2);

    stats.session_closed();
    let snapshot = stats.snapshot();
    assert_eq!(snapshot.total_sessions, 2);
    assert_eq!(snapshot.active_sessions, 1);

    stats.stream_created();
    let snapshot = stats.snapshot();
    assert_eq!(snapshot.total_streams, 1);
    assert_eq!(snapshot.active_streams, 1);

    stats.message_processed(100);
    stats.message_processed(200);
    let snapshot = stats.snapshot();
    assert_eq!(snapshot.messages_processed, 2);
    assert_eq!(snapshot.bytes_transferred, 300);
    // the average message size, as the float ratio the snapshot feeds
    assert_eq!(snapshot.bytes_transferred as f64 / snapshot.messages_processed as f64, 150.0);

    stats.error_occurred();
    let snapshot = stats.snapshot();
    assert_eq!(snapshot.errors_count, 1);
    // the error rate in percent: 1 error out of 2 messages
    assert_eq!(snapshot.errors_count as f64 / snapshot.messages_processed as f64 * 100.0, 50.0);

    stats.reset();
    let snapshot = stats.snapshot();
    assert_eq!(snapshot.total_sessions, 0);
    assert_eq!(snapshot.messages_processed, 0);
}

#[test]
fn test_server_state_validation() {
    let config = create_test_config();
    let state = ServerState::new(config);

    assert!(state.validate(0).is_ok());
    assert!(state.can_accept_connection(0));
}

#[test]
fn server_state_validation_errors() {
    let mut config = create_test_config();
    config.max_connections = 1;
    let mut state = ServerState::new(config);
    assert_eq!(
        state.validate(2),
        Err(ServerStateError::ExceededMaxConnections { current: 2, max: 1 })
    );
    state.stats.session_created();
    match state.validate(0) {
        Err(ServerStateError::InconsistentStats { message }) => {
            assert_eq!(message, "Active sessions mismatch: actual=0, stats=1");
        }
        other => panic!("unexpected {:?}", other),
    }
    assert!(!state.can_accept_connection(1));
}

#[test]
fn test_stats_snapshot() {
    let mut stats = ServerStats::new();
    stats.message_processed(100);
    stats.error_occurred();

    let snapshot = stats.snapshot();
    assert_eq!(snapshot.errors_count as f64 / snapshot.messages_processed as f64 * 100.0, 100.0);
    assert_eq!(snapshot.bytes_transferred as f64 / snapshot.messages_processed as f64, 100.0);

    let empty_stats = ServerStats::new();
    let empty_snapshot = empty_stats.snapshot();
    assert_eq!(empty_snapshot.messages_processed, 0);
    assert_eq!(empty_snapshot.bytes_transferred, 0);
}

use dbgif_protocol::server::stream::{StreamConfig, StreamManager, StreamState};

#[test]
fn test_stream_manager_creation() {
    let manager = StreamManager::new();
    let stats = manager.get_stream_stats().unwrap();
    assert_eq!(stats.total_streams, 0);
}

#[test]
fn stream_test_stream_creation() {
    let mut manager = StreamManager::new();
    let stream_id = manager.create_stream("session1", 1, "shell".to_string()).unwrap();
    assert_eq!(stream_id, 1);

    let stream = manager.get_stream("session1", stream_id).unwrap().unwrap();
    assert_eq!(stream.info.state, StreamState::Opening);
    assert_eq!(stream.info.service_name, "shell");
}

#[test]
fn test_stream_state_updates() {
    let mut manager = StreamManager::new();
    let stream_id = manager.create_stream("session1", 1, "shell".to_string()).unwrap();

    manager.update_stream_state("session1", stream_id, StreamState::Active).unwrap();
    let stream = manager.get_stream("session1", stream_id).unwrap().unwrap();
    assert_eq!(stream.info.state, StreamState::Active);
}

#[test]
fn test_stream_removal() {
    let mut manager = StreamManager::new();
    let stream_id = manager.create_stream("session1", 1, "shell".to_string()).unwrap();

    let removed = manager.remove_stream("session1", stream_id).unwrap();
    assert!(removed.is_some());

    let stream = manager.get_stream("session1", stream_id).unwrap();
    assert!(stream.is_none());
}

#[test]
fn stream_ids_are_per_session_and_never_reused() {
    let mut manager = StreamManager::new();
    assert_eq!(manager.create_stream_at("a", 10, "shell".to_string(), 0), Ok(1));
    assert_eq!(manager.create_stream_at("a", 11, "tcp:1:2".to_string(), 0), Ok(2));
    assert_eq!(manager.create_stream_at("b", 12, "host:version".to_string(), 0), Ok(1));
    manager.remove_stream("a", 2).unwrap();
    assert_eq!(manager.create_stream_at("a", 13, "shell".to_string(), 0), Ok(3));
    let stats = manager.get_stream_stats().unwrap();
    assert_eq!(stats.total_sessions, 2);
    assert_eq!(stats.total_streams, 3);
    assert_eq!(stats.opening_streams, 3);
    assert_eq!(manager.list_session_streams("a").unwrap().len(), 2);
    assert_eq!(manager.list_all_streams().unwrap().len(), 3);
}

#[test]
fn stream_limit_per_session_is_reported() {
    let mut config = StreamConfig::default();
    config.max_streams_per_session = 1;
    let mut manager = StreamManager::with_config(config);
    assert_eq!(manager.create_stream_at("s", 1, "shell".to_string(), 0), Ok(1));
    assert_eq!(
        manager.create_stream_at("s", 2, "shell".to_string(), 0),
        Err(dbgif_protocol::protocol::error::ProtocolError::MaxStreamsExceeded { count: 1, max: 1 })
    );
}

#[test]
fn missing_stream_updates_report_not_found() {
    let mut manager = StreamManager::new();
    assert_eq!(
        manager.update_stream_state_at("nobody", 5, StreamState::Closed, 0),
        Err(dbgif_protocol::protocol::error::ProtocolError::StreamNotFound { local_id: 5, remote_id: 0 })
    );
    assert!(manager.record_activity_at("nobody", 5, 1, 1, 0).is_err());
}

#[test]
fn recorded_activity_counts_bytes_and_messages() {
    let mut manager = StreamManager::new();
    let id = manager.create_stream_at("s", 1, "shell".to_string(), 0).unwrap();
    manager.record_activity_at("s", id, 10, 0, 5).unwrap();
    manager.record_activity_at("s", id, 0, 7, 6).unwrap();
    let e = manager.get_stream("s", id).unwrap().unwrap();
    assert_eq!(e.info.stats.bytes_sent, 10);
    assert_eq!(e.info.stats.bytes_received, 7);
    assert_eq!(e.info.stats.messages_sent, 1);
    assert_eq!(e.info.stats.messages_received, 1);
    assert_eq!(e.last_activity_ms, 6);
}

#[test]
fn cleanup_removes_idle_closed_streams_only() {
    let mut manager = StreamManager::new();
    let a = manager.create_stream_at("s", 1, "shell".to_string(), 0).unwrap();
    let b = manager.create_stream_at("s", 2, "shell".to_string(), 0).unwrap();
    let c = manager.create_stream_at("t", 3, "shell".to_string(), 0).unwrap();
    manager.update_stream_state_at("s", a, StreamState::Closed, 0).unwrap();
    manager.update_stream_state_at("t", c, StreamState::Closing, 0).unwrap();
    // within the timeout nothing goes
    assert_eq!(manager.cleanup_inactive_streams_at(59_999), Ok(0));
    // past it, the idle closed and closing streams go; the opening one stays
    assert_eq!(manager.cleanup_inactive_streams_at(60_000), Ok(2));
    assert!(manager.get_stream("s", b).unwrap().is_some());
    assert!(manager.get_stream("s", a).unwrap().is_none());
    let stats = manager.get_stream_stats().unwrap();
    assert_eq!(stats.total_sessions, 1);
    assert_eq!(stats.total_streams, 1);
}

#[test]
fn drop_oldest_keeps_the_newest_bytes_of_a_large_write() {
    let mut b = StreamBuffer::new(4);
    assert_eq!(b.write_incoming(b"ab").unwrap(), 2);
    assert_eq!(b.write_incoming(b"cdefgh").unwrap(), 6);
    assert_eq!(b.incoming, b"efgh".to_vec());
    assert_eq!(b.stats.overflow_count, 1);
    assert_eq!(b.stats.incoming_bytes_written, 8);
}
