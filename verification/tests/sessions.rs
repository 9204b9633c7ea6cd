use dbgif_protocol::discovery::coordinator::{DeviceDiscoveryCoordinator, DiscoveryEvent};
use dbgif_protocol::protocol::constants::{CLSE, CNXN, OKAY, OPEN, WRTE};
use dbgif_protocol::protocol::message::AdbMessage;
use dbgif_protocol::session::manager::{AdbSession, AdbSessionManager, SessionError, SessionState};
use dbgif_protocol::session::multiplexer::{MuxError, StreamMultiplexer, StreamState};
use dbgif_protocol::transport::{ConnectionInfo, DeviceInfo, TransportType};

#[test]
fn test_multiplexer_creation() {
    let multiplexer = StreamMultiplexer::new();
    let stats = multiplexer.get_stats();
    assert_eq!(stats.active_streams, 0);
    assert_eq!(stats.max_concurrent_streams, 50);
}

#[test]
fn multiplexer_test_stream_creation() {
    let mut multiplexer = StreamMultiplexer::new();
    let local_id = multiplexer.create_stream("shell:".to_string(), 0).unwrap();
    assert_eq!(local_id, 1);
    let stream = &multiplexer.streams[0];
    assert_eq!(stream.service_name, "shell:");
    assert_eq!(stream.state, StreamState::Opening);
}

#[test]
fn test_open_message_processing() {
    let mut multiplexer = StreamMultiplexer::new();
    let open_message = AdbMessage::new(OPEN, 42, 0, b"shell:".to_vec());

    let (local_id, response) = multiplexer.process_open_message(&open_message, 0).unwrap();

    assert_eq!(local_id, 1);
    let stream = &multiplexer.streams[0];
    assert_eq!(stream.service_name, "shell:");
    assert_eq!(stream.remote_id, Some(42));
    assert_eq!(stream.state, StreamState::Connected);

    assert_eq!(response.command, OKAY);
    assert_eq!(response.arg0, 1);
    assert_eq!(response.arg1, 42);
}

#[test]
fn test_write_message_processing() {
    let mut multiplexer = StreamMultiplexer::new();
    let open_message = AdbMessage::new(OPEN, 42, 0, b"shell:".to_vec());
    let (local_id, _) = multiplexer.process_open_message(&open_message, 0).unwrap();

    let write_message = AdbMessage::new(WRTE, 42, local_id, b"echo hello".to_vec());
    let response = multiplexer.process_write_message(&write_message).unwrap();

    assert_eq!(response.command, OKAY);
    assert_eq!(response.arg0, local_id);
    assert_eq!(response.arg1, 42);
}

#[test]
fn multiplexer_refusals() {
    let mut multiplexer = StreamMultiplexer::with_config(1, 1000);
    let local_id = multiplexer.create_stream("a".to_string(), 0).unwrap();
    assert_eq!(multiplexer.create_stream("b".to_string(), 0), Err(MuxError::TooManyStreams { max: 1 }));
    let write = AdbMessage::new(WRTE, 9, local_id, b"x".to_vec());
    assert_eq!(multiplexer.process_write_message(&write), Err(MuxError::NotConnected { local_id }));
    let stray = AdbMessage::new(WRTE, 9, 77, b"x".to_vec());
    assert_eq!(multiplexer.process_write_message(&stray), Err(MuxError::StreamNotFound { local_id: 77 }));
    let wrong = AdbMessage::new(OKAY, 9, local_id, Vec::new());
    assert_eq!(
        multiplexer.process_write_message(&wrong),
        Err(MuxError::UnexpectedCommand { expected: WRTE, got: OKAY })
    );
    assert_eq!(
        multiplexer.send_stream_data(local_id, b"x".to_vec(), 5),
        Err(MuxError::NotConnected { local_id })
    );
    // past the timeout the stream is listed as expired
    assert!(multiplexer.expired_streams(1000).is_empty());
    assert_eq!(multiplexer.expired_streams(1001), vec![local_id]);
    // a stream without a remote id closes silently
    assert!(multiplexer.close_stream(local_id).is_none());
    assert_eq!(multiplexer.get_stats().active_streams, 0);
}

#[test]
fn test_stream_data_flow() {
    let mut multiplexer = StreamMultiplexer::new();
    let (local_id, _) = multiplexer.process_open_message(&AdbMessage::new(OPEN, 42, 0, b"test:".to_vec()), 0).unwrap();
    let wrte = multiplexer.send_stream_data(local_id, b"test data".to_vec(), 10).unwrap();
    assert_eq!(wrte.command, WRTE);
    assert_eq!((wrte.arg0, wrte.arg1), (local_id, 42));
    assert_eq!(wrte.data, b"test data".to_vec());

    let close = multiplexer.process_close_message(&AdbMessage::new(CLSE, 42, local_id, Vec::new())).unwrap();
    assert_eq!(close.unwrap().command, CLSE);
    assert!(multiplexer.process_close_message(&AdbMessage::new(CLSE, 42, local_id, Vec::new())).unwrap().is_none());
}

#[test]
fn test_session_manager_creation() {
    let session_manager = AdbSessionManager::new();
    let stats = session_manager.get_stats();
    assert_eq!(stats.active_sessions, 0);
    assert_eq!(stats.max_concurrent_sessions, 100);
}

#[test]
fn test_session_creation() {
    let session = AdbSession::new(
        "test_session".to_string(),
        "client1".to_string(),
        "device1".to_string(),
        "test_system".to_string(),
        60_000,
        0,
    );

    assert_eq!(session.session_id, "test_session");
    assert_eq!(session.client_id, "client1");
    assert_eq!(session.device_id, "device1");
    assert_eq!(session.state, SessionState::Created);
}

#[test]
fn test_session_handshake() {
    let mut session = AdbSession::new(
        "test_session".to_string(),
        "client1".to_string(),
        "device1".to_string(),
        "test_system".to_string(),
        60_000,
        0,
    );

    session.start_handshake(0).unwrap();
    assert_eq!(session.state, SessionState::Handshaking);

    let cnxn_message = AdbMessage::new(CNXN, 0x01000000, 256 * 1024, b"client_system".to_vec());

    let response = session.process_handshake_message(&cnxn_message, 1).unwrap();
    assert!(response.is_some());
    assert_eq!(session.state, SessionState::Connected);
    assert!(session.check_can_send().is_ok());
}

#[test]
fn test_session_expiry() {
    let session = AdbSession::new(
        "test_session".to_string(),
        "client1".to_string(),
        "device1".to_string(),
        "test_system".to_string(),
        1,
        0,
    );

    assert!(!session.is_expired(1));
    assert!(session.is_expired(10));
}

#[test]
fn session_manager_plans_unique_sessions() {
    let mut manager = AdbSessionManager::with_config(60_000, 1);
    let id = manager.plan_session("client1", "device1").unwrap();
    assert_eq!(id, "client1:device1");
    manager.add_session(AdbSession::new(id, "client1".to_string(), "device1".to_string(), "sys".to_string(), 60_000, 0));
    assert!(matches!(manager.plan_session("client2", "device1"), Err(SessionError::TooManySessions { max: 1 })));

    let mut roomy = AdbSessionManager::with_config(60_000, 5);
    let id = roomy.plan_session("c", "d").unwrap();
    roomy.add_session(AdbSession::new(id, "c".to_string(), "d".to_string(), "sys".to_string(), 10, 0));
    assert!(matches!(roomy.plan_session("c", "d"), Err(SessionError::SessionExists { .. })));
    assert_eq!(roomy.expired_sessions(11), vec!["c:d".to_string()]);
    let removed = roomy.remove_session("c:d").unwrap();
    assert_eq!(removed.state, SessionState::Closed);
    assert!(roomy.remove_session("c:d").is_none());
}

#[test]
fn sending_before_the_handshake_is_refused() {
    let session = AdbSession::new("s".to_string(), "c".to_string(), "d".to_string(), "sys".to_string(), 10, 0);
    assert!(matches!(session.check_can_send(), Err(SessionError::InvalidState { state: SessionState::Created })));
}

fn tcp_device(id: &str) -> DeviceInfo {
    DeviceInfo {
        device_id: id.to_string(),
        display_name: id.to_string(),
        transport_type: TransportType::Tcp,
        connection_info: ConnectionInfo::Tcp { host: "127.0.0.1".to_string(), port: 5555 },
        capabilities: vec![],
    }
}

#[test]
fn test_discovery_coordinator_creation() {
    let coordinator = DeviceDiscoveryCoordinator::new();
    assert_eq!(coordinator.discovery_interval_ms, 1000);
    assert!(coordinator.hotplug_enabled);
}

#[test]
fn test_discovery_scan() {
    let mut coordinator = DeviceDiscoveryCoordinator::with_config(100, true);
    let events = coordinator.process_discovered_devices(&vec![tcp_device("a"), tcp_device("b")]);
    assert_eq!(events.len(), 2);
    assert!(events.iter().all(|e| matches!(e, DiscoveryEvent::DeviceConnected(_))));
    assert_eq!(coordinator.known_count(), 2);

    let events = coordinator.process_discovered_devices(&vec![tcp_device("b"), tcp_device("c")]);
    let mut connected = vec![];
    let mut gone = vec![];
    for e in events {
        match e {
            DiscoveryEvent::DeviceConnected(id) => connected.push(id),
            DiscoveryEvent::DeviceDisconnected(id) => gone.push(id),
            DiscoveryEvent::DiscoveryError(e) => panic!("unexpected error {}", e),
        }
    }
    assert_eq!(connected, vec!["c".to_string()]);
    assert_eq!(gone, vec!["a".to_string()]);
}

#[test]
fn test_discovery_stats() {
    let coordinator = DeviceDiscoveryCoordinator::new();
    let mut usb = tcp_device("u");
    usb.transport_type = TransportType::UsbDevice;
    let stats = coordinator.get_discovery_stats(&vec![tcp_device("a"), usb]);

    assert_eq!(stats.discovery_interval_ms, 1000);
    assert!(stats.hotplug_enabled);
    assert_eq!(stats.total_known_devices, 0);
    assert_eq!(stats.tcp_devices, 1);
    assert_eq!(stats.usb_device_count, 1);
    assert_eq!(stats.usb_bridge_count, 0);
}

#[test]
fn expired_sessions_are_cleaned_up() {
    let mut manager = AdbSessionManager::with_config(10, 5);
    manager.add_session(AdbSession::new("a:x".to_string(), "a".to_string(), "x".to_string(), "s".to_string(), 10, 0));
    manager.add_session(AdbSession::new("b:x".to_string(), "b".to_string(), "x".to_string(), "s".to_string(), 100, 0));
    assert_eq!(manager.get_session("a:x").unwrap().get_state(), SessionState::Created);
    assert_eq!(manager.cleanup_expired_sessions(11), 1);
    assert!(manager.get_session("a:x").is_none());
    assert_eq!(manager.get_all_sessions().len(), 1);
    assert_eq!(manager.cleanup_expired_sessions(11), 0);
}

#[test]
fn remote_id_is_set_once() {
    let mut multiplexer = StreamMultiplexer::new();
    let id = multiplexer.create_stream("test:".to_string(), 0).unwrap();
    let stream = &mut multiplexer.streams[0];
    assert_eq!(stream.local_id, id);
    assert!(stream.get_remote_id().is_none());
    stream.set_remote_id(42).unwrap();
    assert_eq!(stream.get_state(), StreamState::Connected);
    assert_eq!(stream.get_remote_id(), Some(42));
    assert_eq!(stream.set_remote_id(43), Err("Remote ID already set".to_string()));
    assert_eq!(stream.get_remote_id(), Some(42));
}

#[test]
fn expired_streams_are_cleaned_up() {
    let mut multiplexer = StreamMultiplexer::with_config(10, 100);
    let a = multiplexer.create_stream("a".to_string(), 0).unwrap();
    let b = multiplexer.create_stream("b".to_string(), 50).unwrap();
    assert_eq!(multiplexer.get_stream(a).unwrap().service_name, "a");
    assert!(multiplexer.get_stream(99).is_none());
    assert_eq!(multiplexer.cleanup_expired_streams(120), 1);
    assert!(multiplexer.get_stream(a).is_none());
    assert!(multiplexer.get_stream(b).is_some());
    assert_eq!(multiplexer.get_all_streams().len(), 1);
}

#[test]
fn known_devices_follow_the_last_scan() {
    let mut coordinator = DeviceDiscoveryCoordinator::new();
    coordinator.process_discovered_devices(&vec![tcp_device("a")]);
    assert_eq!(coordinator.get_known_devices(), &vec!["a".to_string()]);
    // the same scan again reports nothing
    assert!(coordinator.process_discovered_devices(&vec![tcp_device("a")]).is_empty());
}
