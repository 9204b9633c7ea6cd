use dbgif_protocol::host_services::version::HostVersionService;
use dbgif_protocol::host_services::{HostService, HostServiceResponse};
use dbgif_protocol::protocol::constants::{CLSE, CNXN, OKAY, PONG, WRTE};
use dbgif_protocol::protocol::error::ProtocolError;
use dbgif_protocol::protocol::message::AdbMessage;
use dbgif_protocol::server::dispatcher::{host_service_reply, host_target, run_host_service, DispatchOutcome, MessageDispatcher};
use dbgif_protocol::host_services::HostServiceRegistry;
use dbgif_protocol::server::state::{ServerConfig, ServerState};

fn create_test_dispatcher() -> MessageDispatcher {
    MessageDispatcher::new(ServerState::new(ServerConfig::default()))
}

fn replies(outcome: DispatchOutcome) -> Vec<AdbMessage> {
    match outcome {
        DispatchOutcome::Reply(v) => v,
        other => panic!("expected a reply, got {:?}", other),
    }
}

#[test]
fn test_dispatcher_creation() {
    let dispatcher = create_test_dispatcher();
    let stats = dispatcher.stats();
    assert_eq!(stats.messages_processed, 0);
    assert_eq!(stats.active_sessions, 0);
}

#[test]
fn test_cnxn_message_handling() {
    let mut dispatcher = create_test_dispatcher();
    let cnxn_message = AdbMessage::new_cnxn(0x01000000, 1024 * 1024, b"client:test:test-client v1.0;".to_vec());

    let responses = replies(dispatcher.dispatch_message(&cnxn_message).unwrap());
    assert_eq!(responses.len(), 1);

    let response = &responses[0];
    assert_eq!(response.command, CNXN);
    assert_eq!(response.arg0, 0x01000000);
    // the default connection timeout of 30 s, in milliseconds
    assert_eq!(response.arg1, 30_000);
    assert_eq!(response.data, b"server:dbgif-server v0.1.0;".to_vec());
}

#[test]
fn test_invalid_protocol_version() {
    let mut dispatcher = create_test_dispatcher();
    let cnxn_message = AdbMessage::new_cnxn(0x02000000, 1024 * 1024, b"client:test:test-client v1.0;".to_vec());

    let result = dispatcher.dispatch_message(&cnxn_message);
    match result {
        Err(ProtocolError::UnsupportedVersion { version }) => assert_eq!(version, 0x02000000),
        other => panic!("Expected UnsupportedVersion error, got {:?}", other),
    }
}

#[test]
fn cnxn_with_invalid_utf8_identity_is_refused() {
    let mut dispatcher = create_test_dispatcher();
    let cnxn_message = AdbMessage::new_cnxn(0x01000000, 4096, vec![0xff, 0xfe]);
    match dispatcher.dispatch_message(&cnxn_message) {
        Err(ProtocolError::InvalidText { message }) => assert_eq!(message, "Invalid UTF-8 in client identifier"),
        other => panic!("unexpected {:?}", other),
    }
}

#[test]
fn test_host_version_service() {
    let mut dispatcher = create_test_dispatcher();
    let open_message = AdbMessage::new_open(1, b"host:version".to_vec());

    let (remote_id, local_id, service, args) = match dispatcher.dispatch_message(&open_message).unwrap() {
        DispatchOutcome::HostService { remote_id, local_id, service, args } => (remote_id, local_id, service, args),
        other => panic!("expected a host service, got {:?}", other),
    };
    assert_eq!(service, "host:version");
    assert_eq!(args, "");
    assert_eq!(local_id, 1);

    let result = HostVersionService::new().handle(&args);
    let responses = host_service_reply(remote_id, local_id, result);

    // Should get OKAY, WRTE, and CLSE
    assert_eq!(responses.len(), 3);
    assert_eq!(responses[0].command, OKAY);
    assert_eq!(responses[1].command, WRTE);
    assert_eq!(responses[2].command, CLSE);
    assert_eq!((responses[0].arg0, responses[0].arg1), (remote_id, 1));
}

#[test]
fn test_host_list_service() {
    let mut dispatcher = create_test_dispatcher();
    let open_message = AdbMessage::new_open(2, b"host:list".to_vec());

    match dispatcher.dispatch_message(&open_message).unwrap() {
        DispatchOutcome::HostService { service, .. } => assert_eq!(service, "host:list"),
        other => panic!("expected a host service, got {:?}", other),
    }
    // an empty answer is acknowledged and closed without a WRTE
    let responses = host_service_reply(7, 2, Ok(HostServiceResponse::okay_empty()));
    assert_eq!(responses.len(), 2);
    assert_eq!(responses[0].command, OKAY);
    assert_eq!(responses[1].command, CLSE);
    // a failed service is just closed
    let responses = host_service_reply(7, 2, Ok(HostServiceResponse::close("nope")));
    assert_eq!(responses.len(), 1);
    assert_eq!(responses[0].command, CLSE);
}

#[test]
fn dispatcher_test_ping_pong() {
    let mut dispatcher = create_test_dispatcher();
    let mut ping_message = AdbMessage::new_ping();
    ping_message.arg0 = 0x12345678;
    ping_message.arg1 = 0xABCDEF01;

    let responses = replies(dispatcher.dispatch_message(&ping_message).unwrap());
    assert_eq!(responses.len(), 1);

    let pong = &responses[0];
    assert_eq!(pong.command, PONG);
    assert_eq!(pong.arg0, 0x12345678);
    assert_eq!(pong.arg1, 0xABCDEF01);
}

#[test]
fn test_unknown_command() {
    let mut dispatcher = create_test_dispatcher();
    let mut unknown_message = AdbMessage::new_ping();
    unknown_message.command = 0xDEADBEEF;
    unknown_message.magic = !0xDEADBEEF;

    match dispatcher.dispatch_message(&unknown_message) {
        Err(ProtocolError::UnknownCommand(command)) => assert_eq!(command, 0xDEADBEEF),
        other => panic!("Expected UnknownCommand error, got {:?}", other),
    }
    // refused messages are not counted
    assert_eq!(dispatcher.stats().messages_processed, 0);
}

#[test]
fn test_device_service_not_implemented() {
    let mut dispatcher = create_test_dispatcher();
    let open_message = AdbMessage::new_open(3, b"shell:".to_vec());

    let responses = replies(dispatcher.dispatch_message(&open_message).unwrap());

    assert_eq!(responses.len(), 1);
    assert_eq!(responses[0].command, CLSE);

    let error_msg = String::from_utf8(responses[0].data.clone()).unwrap();
    assert!(error_msg.contains("not implemented"));
}

#[test]
fn test_close_stream() {
    let mut dispatcher = create_test_dispatcher();
    let close_message = AdbMessage::new_clse(1, 100);

    let responses = replies(dispatcher.dispatch_message(&close_message).unwrap());
    assert_eq!(responses.len(), 1);

    let response = &responses[0];
    assert_eq!(response.command, CLSE);
    assert_eq!(response.arg0, 100); // swapped
    assert_eq!(response.arg1, 1); // swapped
}

#[test]
fn test_stats_tracking() {
    let mut dispatcher = create_test_dispatcher();

    let initial_stats = dispatcher.stats();
    assert_eq!(initial_stats.messages_processed, 0);

    let ping_message = AdbMessage::new_ping();
    dispatcher.dispatch_message(&ping_message).unwrap();

    let updated_stats = dispatcher.stats();
    assert_eq!(updated_stats.messages_processed, 1);
    assert!(updated_stats.bytes_processed >= 24);
}

#[test]
fn host_targets_split_service_and_arguments() {
    assert_eq!(host_target("host:version"), ("host:version".to_string(), "".to_string()));
    assert_eq!(host_target("host:device:abc"), ("host:device".to_string(), "abc".to_string()));
    assert_eq!(host_target("host:list:extra"), ("host:list:extra".to_string(), "extra".to_string()));
    assert_eq!(host_target("host:device"), ("host:device".to_string(), "".to_string()));
}

#[test]
fn open_streams_get_fresh_remote_ids() {
    let mut dispatcher = create_test_dispatcher();
    let a = replies(dispatcher.dispatch_message(&AdbMessage::new_open(5, b"shell:".to_vec())).unwrap());
    let b = replies(dispatcher.dispatch_message(&AdbMessage::new_open(6, b"shell:".to_vec())).unwrap());
    assert_eq!(a[0].arg0, 1);
    assert_eq!(b[0].arg0, 2);
    assert_eq!(b[0].arg1, 6);
}

#[test]
fn running_a_host_service_builds_the_reply() {
    let mut registry: HostServiceRegistry<HostVersionService> = HostServiceRegistry::new();
    registry.register(HostVersionService::with_version("v9".to_string()));
    let found = run_host_service(&registry, 7, 2, "host:version", "");
    assert_eq!(found.len(), 3);
    assert_eq!(found[0].command, OKAY);
    assert_eq!(found[1].command, WRTE);
    assert_eq!(found[1].data, b"v9".to_vec());
    assert_eq!(found[2].command, CLSE);
    let missing = run_host_service(&registry, 7, 2, "host:nothing", "");
    assert_eq!(missing.len(), 1);
    assert_eq!(missing[0].command, CLSE);
    assert_eq!((missing[0].arg0, missing[0].arg1), (7, 2));
}
