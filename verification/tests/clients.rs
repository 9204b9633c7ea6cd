use dbgif_protocol::protocol::constants::{CLSE, CNXN, OKAY, OPEN, PING, PONG, WRTE};
use dbgif_protocol::protocol::message::AdbMessage;
use dbgif_protocol::server::ascii_handler::{classify_request, split_service, AsciiHandler, AsciiRequest};
use dbgif_protocol::server::client_handler::{trim_nul, ClientError, ClientHandler, OpenOutcome};
use dbgif_protocol::server::host_commands::HostCommandResponse;
use dbgif_protocol::server::message_handler::validate_message;

#[test]
fn client_handshake_then_host_open() {
    let mut handler = ClientHandler::new("client-1".to_string());
    let open = AdbMessage::new(OPEN, 5, 0, b"host:version\0".to_vec());
    assert!(matches!(handler.handle_open(&open), Err(ClientError::NotAuthenticated)));

    let reply = handler.handle_connect(&AdbMessage::new(CNXN, 0x01000000, 4096, b"host::".to_vec()));
    assert_eq!(reply.len(), 1);
    assert_eq!(reply[0].command, CNXN);
    assert_eq!(reply[0].data, b"device::\0".to_vec());
    assert!(handler.is_authenticated);

    match handler.handle_open(&open).unwrap() {
        OpenOutcome::HostCommand { local_id, remote_id, service } => {
            assert_eq!((local_id, remote_id), (1, 5));
            assert_eq!(service, "host:version");
        }
        other => panic!("unexpected {:?}", other),
    }
    let answer = handler.handle_host_response(1, 5, HostCommandResponse::Data { data: b"0004v1.0".to_vec() });
    assert_eq!(answer[0].command, OKAY);
}

#[test]
fn device_open_needs_a_selected_device() {
    let mut handler = ClientHandler::new("c".to_string());
    handler.handle_connect(&AdbMessage::new(CNXN, 0x01000000, 4096, Vec::new()));
    match handler.handle_open(&AdbMessage::new(OPEN, 9, 0, b"shell:ls".to_vec())).unwrap() {
        OpenOutcome::Reply(v) => {
            assert_eq!(v.len(), 2);
            assert_eq!(v[0].command, WRTE);
            assert_eq!(v[0].data, b"FAIL0012no device selected".to_vec());
            assert_eq!(v[1].command, CLSE);
        }
        other => panic!("unexpected {:?}", other),
    }
    handler.selected_device = Some("dev".to_string());
    match handler.handle_open(&AdbMessage::new(OPEN, 9, 0, b"shell:ls".to_vec())).unwrap() {
        OpenOutcome::Reply(v) => {
            assert_eq!(v.len(), 1);
            assert_eq!(v[0].command, OKAY);
            assert_eq!((v[0].arg0, v[0].arg1), (2, 9));
        }
        other => panic!("unexpected {:?}", other),
    }
    // writes on a known stream are acknowledged, on an unknown one ignored
    assert_eq!(handler.handle_write(&AdbMessage::new(WRTE, 9, 2, b"x".to_vec())).len(), 1);
    assert!(handler.handle_write(&AdbMessage::new(WRTE, 9, 77, b"x".to_vec())).is_empty());
    handler.handle_close(&AdbMessage::new(CLSE, 9, 2, Vec::new()));
    assert!(handler.handle_write(&AdbMessage::new(WRTE, 9, 2, b"x".to_vec())).is_empty());
}

#[test]
fn ping_is_answered_with_swapped_ids() {
    let handler = ClientHandler::new("c".to_string());
    let pong = handler.handle_ping(&AdbMessage::new(PING, 1, 2, b"tok".to_vec()));
    assert_eq!(pong[0].command, PONG);
    assert_eq!((pong[0].arg0, pong[0].arg1), (2, 1));
    assert_eq!(pong[0].data, b"tok".to_vec());
}

#[test]
fn trailing_nuls_are_trimmed() {
    assert_eq!(trim_nul("shell:\0\0"), "shell:");
    assert_eq!(trim_nul("a\0b"), "a\0b");
    assert_eq!(trim_nul(""), "");
}

#[test]
fn message_validation() {
    assert!(validate_message(&AdbMessage::new_ping()).is_ok());
    let mut bad = AdbMessage::new_ping();
    bad.magic = 0;
    assert!(validate_message(&bad).is_err());
    let mut torn = AdbMessage::new(WRTE, 1, 2, b"abc".to_vec());
    torn.data.push(b'd');
    assert!(validate_message(&torn).is_err());
    let mut corrupt = AdbMessage::new(WRTE, 1, 2, b"abc".to_vec());
    corrupt.data[0] = b'x';
    assert!(validate_message(&corrupt).is_err());
    assert!(validate_message(&AdbMessage::new(WRTE, 1, 2, b"abc".to_vec())).is_ok());
}

#[test]
fn ascii_requests_are_classified() {
    assert!(matches!(classify_request("host:version"), AsciiRequest::HostService));
    assert!(matches!(classify_request("shell:ls"), AsciiRequest::Shell));
    assert!(matches!(classify_request("STRM"), AsciiRequest::Strm));
    assert!(matches!(classify_request("tcp:80"), AsciiRequest::Tcp));
    assert!(matches!(classify_request("sync:"), AsciiRequest::Sync));
    assert!(matches!(classify_request("bogus"), AsciiRequest::Unknown));
    match classify_request("host:transport:dev1") {
        AsciiRequest::Transport(id) => assert_eq!(id, "dev1"),
        other => panic!("unexpected {:?}", other),
    }
    match classify_request("host:connect:10.0.0.1:5555") {
        AsciiRequest::Connect(addr) => assert_eq!(addr, "10.0.0.1:5555"),
        other => panic!("unexpected {:?}", other),
    }
    assert_eq!(split_service("shell:ls -l"), ("shell:ls -l".to_string(), "".to_string()));
    assert_eq!(split_service("host:transport:dev1"), ("host:transport".to_string(), "dev1".to_string()));
    assert_eq!(split_service("host:a:b:c"), ("host:a".to_string(), "b:c".to_string()));
    let handler = AsciiHandler::new("s".to_string());
    assert!(handler.selected_device().is_none());
}
