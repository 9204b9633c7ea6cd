use dbgif_protocol::protocol::ascii::{encode_request, decode_response, encode_strm, decode_strm};
use dbgif_protocol::protocol::checksum::verify;
use dbgif_protocol::protocol::crc::validate_crc32;
use dbgif_protocol::protocol::handshake::HandshakeHandler;
use dbgif_protocol::protocol::host_commands::HostCommand;

#[test]
fn test_encode_request() {
    let encoded = encode_request("host:version");
    assert_eq!(&encoded[0..4], b"000c");
    assert_eq!(&encoded[4..], b"host:version");
}

#[test]
fn test_decode_response_okay() {
    let (success, payload) = decode_response(b"OKAY0005hello").unwrap();
    assert!(success);
    assert_eq!(payload, b"hello");
}

#[test]
fn test_decode_response_fail() {
    let (success, payload) = decode_response(b"FAIL0005error").unwrap();
    assert!(!success);
    assert_eq!(payload, b"error");
}

#[test]
fn test_encode_strm() {
    let encoded = encode_strm(0x42, b"test data");
    assert_eq!(&encoded[0..4], b"STRM");
    assert_eq!(&encoded[4..6], b"42");
    assert_eq!(&encoded[6..12], b"000009");
    assert_eq!(&encoded[12..], b"test data");
}

#[test]
fn test_decode_strm() {
    let (stream_id, payload) = decode_strm(b"STRM42000009test data").unwrap();
    assert_eq!(stream_id, 0x42);
    assert_eq!(payload, b"test data");
}

#[test]
fn test_verify_mismatch() {
    assert!(!verify(b"hello world", 0x12345678));
}

#[test]
fn test_validate_crc32_failure() {
    assert!(!validate_crc32(b"test data", 0x12345678));
}

#[test]
fn test_handshake_handler_creation() {
    let handler = HandshakeHandler::new("test_system".to_string());
    assert_eq!(handler.version, 0x01000000);
    assert_eq!(handler.max_data_size, 256 * 1024);
    assert_eq!(handler.system_identity, "test_system");
    assert!(!handler.auth_required);
}

#[test]
fn test_version_validation() {
    let handler = HandshakeHandler::new("test".to_string());
    assert!(handler.validate_handshake_complete(0x01000001, 0x01000002).is_ok());
    assert!(handler.validate_handshake_complete(0x01000001, 0x02000001).is_err());
}

#[test]
fn test_parse_devices() {
    let cmd = HostCommand::parse("host:devices").unwrap();
    assert_eq!(cmd, HostCommand::Devices);
    assert_eq!(cmd.to_service_string(), "host:devices");
}

#[test]
fn test_parse_devices_long() {
    let cmd = HostCommand::parse("host:devices-l").unwrap();
    assert_eq!(cmd, HostCommand::DevicesLong);
    assert_eq!(cmd.to_service_string(), "host:devices-l");
}

#[test]
fn test_parse_track_devices() {
    let cmd = HostCommand::parse("host:track-devices").unwrap();
    assert_eq!(cmd, HostCommand::TrackDevices);
    assert!(cmd.is_streaming());
}

#[test]
fn test_parse_transport() {
    let cmd = HostCommand::parse("host:transport:0123456789ABCDEF").unwrap();
    assert_eq!(cmd, HostCommand::Transport("0123456789ABCDEF".to_string()));
    assert_eq!(cmd.to_service_string(), "host:transport:0123456789ABCDEF");
}

#[test]
fn test_parse_transport_any() {
    let cmd = HostCommand::parse("host:transport-any").unwrap();
    assert_eq!(cmd, HostCommand::TransportAny);
}

#[test]
fn test_parse_not_host_command() {
    assert!(HostCommand::parse("shell:ls").is_err());
}

#[test]
fn test_parse_empty_transport() {
    assert!(HostCommand::parse("host:transport:").is_err());
}

#[test]
fn test_parse_unknown_command() {
    assert!(HostCommand::parse("host:unknown").is_err());
}

#[test]
fn test_streaming_commands() {
    assert!(!HostCommand::Devices.is_streaming());
    assert!(!HostCommand::DevicesLong.is_streaming());
    assert!(HostCommand::TrackDevices.is_streaming());
    assert!(!HostCommand::TransportAny.is_streaming());
}
