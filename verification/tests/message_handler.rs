use dbgif_protocol::protocol::constants::{CLSE, CNXN, OKAY, OPEN, PING, PONG, WRTE};
use dbgif_protocol::protocol::error::ProtocolError;
use dbgif_protocol::protocol::message::AdbMessage;
use dbgif_protocol::server::dispatcher::MessageDispatcher;
use dbgif_protocol::server::message_handler::{HandlerStep, MessageHandler};
use dbgif_protocol::server::state::{ServerConfig, ServerState};
use dbgif_protocol::server::stream::StreamState;

fn handler(identity: Option<&str>) -> MessageHandler {
    let dispatcher = MessageDispatcher::new(ServerState::new(ServerConfig::default()));
    MessageHandler::new(dispatcher, "session-1".to_string(), identity.map(|s| s.to_string()), 0)
}

fn reply(step: HandlerStep) -> Vec<AdbMessage> {
    match step {
        HandlerStep::Reply(v) => v,
        other => panic!("expected a reply, got {:?}", other),
    }
}

#[test]
fn ping_gets_pong() {
    let mut h = handler(None);
    let out = reply(h.process_message(&AdbMessage::new(PING, 7, 8, Vec::new()), 10));
    assert_eq!(out.len(), 1);
    assert_eq!(out[0].command, PONG);
    assert_eq!((out[0].arg0, out[0].arg1), (0, 0));
    assert_eq!(h.dispatcher.server_state.stats.messages_processed, 1);
}

#[test]
fn connect_gets_device_banner() {
    let mut h = handler(None);
    let out = reply(h.process_message(&AdbMessage::new(CNXN, 0x01000000, 4096, b"host::\0".to_vec()), 10));
    assert_eq!(out.len(), 1);
    assert_eq!(out[0].command, CNXN);
    assert_eq!((out[0].arg0, out[0].arg1), (1, 1048576));
    assert_eq!(out[0].data, b"device::\0".to_vec());
}

#[test]
fn bad_magic_ends_the_connection() {
    let mut h = handler(None);
    let mut m = AdbMessage::new(PING, 0, 0, Vec::new());
    m.magic = 0;
    match h.process_message(&m, 10) {
        HandlerStep::Fail(ProtocolError::InvalidMagic { expected, actual }) => {
            assert_eq!(expected, !PING);
            assert_eq!(actual, 0);
        },
        other => panic!("unexpected {:?}", other),
    }
    assert_eq!(h.dispatcher.server_state.stats.messages_processed, 1);
}

#[test]
fn unknown_command_gets_clse() {
    let mut h = handler(None);
    let out = reply(h.process_message(&AdbMessage::new(0x1234_5678, 1, 2, Vec::new()), 10));
    assert_eq!(out.len(), 1);
    assert_eq!(out[0].command, CLSE);
    assert_eq!((out[0].arg0, out[0].arg1), (0, 0));
}

#[test]
fn device_open_without_device_is_refused() {
    let mut h = handler(None);
    let out = reply(h.process_message(&AdbMessage::new(OPEN, 3, 0, b"shell:ls".to_vec()), 10));
    assert_eq!(out[0].command, CLSE);
    assert!(h.streams.is_empty());
}

#[test]
fn device_stream_lifecycle() {
    let mut h = handler(Some("device:emu"));
    let out = reply(h.process_message(&AdbMessage::new(OPEN, 3, 0, b"shell:ls".to_vec()), 10));
    assert_eq!(out.len(), 1);
    assert_eq!(out[0].command, OKAY);
    assert_eq!((out[0].arg0, out[0].arg1), (3, 0));
    assert_eq!(h.streams.len(), 1);
    assert_eq!(h.streams[0].service, "device:emu:shell:ls");
    assert_eq!(h.streams[0].state, StreamState::Opening);
    assert_eq!(h.streams_created, 1);

    let out = reply(h.process_message(&AdbMessage::new(OKAY, 3, 0, Vec::new()), 20));
    assert!(out.is_empty());
    assert_eq!(h.streams[0].state, StreamState::Active);
    assert_eq!(h.last_activity_ms, 20);

    let out = reply(h.process_message(&AdbMessage::new(WRTE, 3, 0, b"abc".to_vec()), 30));
    assert_eq!(out[0].command, OKAY);
    assert_eq!(h.streams[0].bytes_sent, 3);
    assert_eq!(h.streams[0].messages_sent, 1);
    assert_eq!(h.bytes_sent, 3);

    let out = reply(h.process_message(&AdbMessage::new(CLSE, 3, 0, Vec::new()), 40));
    assert!(out.is_empty());
    assert!(h.streams.is_empty());
    assert_eq!(h.last_activity_ms, 40);
}

#[test]
fn reopened_stream_id_replaces_the_old_one() {
    let mut h = handler(Some("device:emu"));
    reply(h.process_message(&AdbMessage::new(OPEN, 3, 0, b"shell:ls".to_vec()), 10));
    reply(h.process_message(&AdbMessage::new(OPEN, 3, 0, b"sync:".to_vec()), 11));
    assert_eq!(h.streams.len(), 1);
    assert_eq!(h.streams[0].service, "device:emu:sync:");
    assert_eq!(h.streams_created, 2);
}

#[test]
fn device_found_through_an_open_stream() {
    let mut h = handler(Some("client"));
    assert_eq!(h.get_selected_device(), None);
    h.identity = Some("device:emu".to_string());
    reply(h.process_message(&AdbMessage::new(OPEN, 1, 0, b"shell:".to_vec()), 10));
    h.identity = Some("client".to_string());
    assert_eq!(h.get_selected_device(), Some("device:emu:shell:".to_string()));
}

#[test]
fn host_open_goes_to_the_dispatcher() {
    let mut h = handler(None);
    match h.process_message(&AdbMessage::new(OPEN, 5, 0, b"host:version".to_vec()), 10) {
        HandlerStep::HostService { remote_id, local_id, service, args } => {
            assert_eq!(remote_id, 1);
            assert_eq!(local_id, 5);
            assert_eq!(service, "host:version");
            assert_eq!(args, "");
        },
        other => panic!("unexpected {:?}", other),
    }
    assert_eq!(h.dispatcher.server_state.stats.messages_processed, 2);
}

#[test]
fn pong_goes_to_the_dispatcher() {
    let mut h = handler(None);
    let out = reply(h.process_message(&AdbMessage::new(PONG, 0, 0, Vec::new()), 10));
    assert!(out.is_empty());
    assert_eq!(h.dispatcher.server_state.stats.messages_processed, 2);
}
