use dbgif_protocol::protocol::checksum::{calculate, verify};
use dbgif_protocol::protocol::commands::AdbCommand;
use dbgif_protocol::protocol::constants::{AUTH, CLSE, CNXN, OKAY, OPEN, PING, PONG, WRTE};
use dbgif_protocol::protocol::crc::known_values;
use dbgif_protocol::protocol::crc::{calculate_crc32, calculate_crc32_chunks, validate_crc32, Crc32Hasher};
use dbgif_protocol::protocol::handshake::{HandshakeHandler, HandshakeManager, HandshakeResponse, HandshakeState};
use dbgif_protocol::protocol::message::{AdbMessage, HEADER_SIZE};
use dbgif_protocol::protocol::parser::{parse_single_message, validate_header, MessageParser, StreamParser};
use dbgif_protocol::protocol::serializer::{
    create_response_pair, serialize_multiple, MessageSequenceBuilder, MessageSerializer, SerializeError, StreamSerializer,
    calculate_batch_size,
};

#[test]
fn test_empty_checksum() {
    let checksum = calculate(&[]);
    assert_eq!(checksum, 0);
}

#[test]
fn test_simple_checksum() {
    let data = b"hello world";
    let checksum = calculate(data);
    assert!(verify(data, checksum));
}

#[test]
fn test_calculate_crc32_empty() {
    assert_eq!(calculate_crc32(b""), known_values::EMPTY);
}

#[test]
fn test_calculate_crc32_known_value() {
    assert_eq!(calculate_crc32(b"123456789"), known_values::TEST_STRING);
}

#[test]
fn test_validate_crc32_success() {
    let data = b"test data";
    let crc = calculate_crc32(data);
    assert!(validate_crc32(data, crc));
}

#[test]
fn test_crc32_chunks() {
    let data = b"hello world";
    let chunks: [&[u8]; 2] = [&data[..5], &data[5..]];

    let whole_crc = calculate_crc32(data);
    let chunks_crc = calculate_crc32_chunks(&chunks);

    assert_eq!(whole_crc, chunks_crc);
}

#[test]
fn test_incremental_hasher() {
    let mut hasher = Crc32Hasher::new();
    hasher.update(b"hello");
    hasher.update(b" ");
    hasher.update(b"world");

    let incremental_crc = hasher.finalize();
    let direct_crc = calculate_crc32(b"hello world");

    assert_eq!(incremental_crc, direct_crc);
}

#[test]
fn test_hasher_reset() {
    let mut hasher = Crc32Hasher::new();
    hasher.update(b"some data");

    hasher.reset();
    hasher.update(b"123456789");

    assert_eq!(hasher.finalize(), known_values::TEST_STRING);
}

#[test]
fn test_hasher_clone_finalize() {
    let mut hasher = Crc32Hasher::new();
    hasher.update(b"123456789");

    let crc1 = hasher.clone_finalize();
    let crc2 = hasher.clone_finalize();
    let crc3 = hasher.finalize();

    assert_eq!(crc1, crc2);
    assert_eq!(crc2, crc3);
    assert_eq!(crc1, known_values::TEST_STRING);
}

#[test]
fn crc32_of_a_null_byte() {
    assert_eq!(calculate_crc32(&[0u8]), known_values::NULL_BYTE);
}

#[test]
fn test_create_connect_message() {
    let handler = HandshakeHandler::new("test_device".to_string());
    let message = handler.create_connect_message();

    assert_eq!(message.command, CNXN);
    assert_eq!(message.arg0, 0x01000000);
    assert_eq!(message.arg1, 256 * 1024);
    assert_eq!(message.data, b"test_device".to_vec());
}

#[test]
fn test_process_connect_no_auth() {
    let handler = HandshakeHandler::new("server".to_string());

    let client_message = AdbMessage::new(CNXN, 0x01000000, 128 * 1024, b"client".to_vec());

    let response = handler.process_connect_message(&client_message).unwrap();

    match response {
        HandshakeResponse::Connected {
            response_message,
            negotiated_version,
            negotiated_max_data,
            client_identity,
        } => {
            assert_eq!(response_message.command, CNXN);
            assert_eq!(negotiated_version, 0x01000000);
            assert_eq!(negotiated_max_data, 128 * 1024); // Min of server and client
            assert_eq!(client_identity, "client");
        }
        _ => panic!("Expected Connected response"),
    }
}

#[test]
fn test_process_connect_with_auth() {
    let handler = HandshakeHandler::with_config(
        "server".to_string(),
        0x01000000,
        256 * 1024,
        true, // Auth required
        10_000,
    );

    let client_message = AdbMessage::new(CNXN, 0x01000000, 128 * 1024, b"client".to_vec());

    let response = handler.process_connect_message(&client_message).unwrap();

    match response {
        HandshakeResponse::AuthRequired {
            auth_message,
            negotiated_version,
            negotiated_max_data,
            client_identity,
        } => {
            assert_eq!(auth_message.command, AUTH);
            assert_eq!(negotiated_version, 0x01000000);
            assert_eq!(negotiated_max_data, 128 * 1024);
            assert_eq!(client_identity, "client");
        }
        _ => panic!("Expected AuthRequired response"),
    }
}

#[test]
fn test_handshake_manager_flow() {
    let handler = HandshakeHandler::new("server".to_string());
    let mut manager = HandshakeManager::new(handler);

    manager.start();
    assert_eq!(manager.state(), &HandshakeState::WaitingForConnect);

    // Send CNXN message
    let client_message = AdbMessage::new(CNXN, 0x01000000, 128 * 1024, b"client".to_vec());

    let response = manager.process_message(&client_message).unwrap();
    assert!(response.is_some());
    assert!(manager.is_completed());

    let result = manager.get_result().unwrap();
    assert_eq!(result.negotiated_version, 0x01000000);
    assert_eq!(result.max_data_size, 128 * 1024);
    assert!(result.connection_established);
}

#[test]
fn handshake_refuses_a_non_connect_message() {
    let handler = HandshakeHandler::new("server".to_string());
    let open = AdbMessage::new(OPEN, 1, 0, b"shell:".to_vec());
    assert!(handler.process_connect_message(&open).is_err());
}

#[test]
fn test_message_parser_single_message() {
    let mut parser = MessageParser::new();

    let test_message = AdbMessage::new(CNXN, 0x12345678, 0x87654321, b"test payload".to_vec());
    let serialized = test_message.serialize();

    parser.feed_data(&serialized);

    let parsed = parser.try_parse_message().unwrap();
    assert!(parsed.is_some());

    let parsed_message = parsed.unwrap();
    assert_eq!(parsed_message.command, CNXN);
    assert_eq!(parsed_message.arg0, 0x12345678);
    assert_eq!(parsed_message.arg1, 0x87654321);
    assert_eq!(parsed_message.data, b"test payload".to_vec());
}

#[test]
fn test_message_parser_partial_data() {
    let mut parser = MessageParser::new();

    let test_message = AdbMessage::new(OKAY, 0, 0, b"hello".to_vec());
    let serialized = test_message.serialize();

    let mid_point = serialized.len() / 2;
    parser.feed_data(&serialized[..mid_point]);

    // Should not parse yet
    let result = parser.try_parse_message().unwrap();
    assert!(result.is_none());

    parser.feed_data(&serialized[mid_point..]);

    let parsed = parser.try_parse_message().unwrap();
    assert!(parsed.is_some());

    let parsed_message = parsed.unwrap();
    assert_eq!(parsed_message.command, OKAY);
    assert_eq!(parsed_message.data, b"hello".to_vec());
}

#[test]
fn test_stream_parser_multiple_messages() {
    let mut stream_parser = StreamParser::new();

    let msg1 = AdbMessage::new(CNXN, 1, 0, b"msg1".to_vec());
    let msg2 = AdbMessage::new(OKAY, 2, 0, b"msg2".to_vec());

    let mut combined_data = Vec::new();
    combined_data.extend_from_slice(&msg1.serialize());
    combined_data.extend_from_slice(&msg2.serialize());

    let messages = stream_parser.process_data(&combined_data).unwrap();

    assert_eq!(messages.len(), 2);
    assert_eq!(messages[0].command, CNXN);
    assert_eq!(messages[0].data, b"msg1".to_vec());
    assert_eq!(messages[1].command, OKAY);
    assert_eq!(messages[1].data, b"msg2".to_vec());
}

#[test]
fn test_peek_next_command() {
    let mut parser = MessageParser::new();

    let test_message = AdbMessage::new(PING, 0, 0, Vec::new());
    let serialized = test_message.serialize();

    parser.feed_data(&serialized);

    let peeked_command = parser.peek_next_command().unwrap();
    assert_eq!(peeked_command, Some(AdbCommand::PING));

    let parsed = parser.try_parse_message().unwrap();
    assert!(parsed.is_some());
    assert_eq!(parsed.unwrap().command, PING);
}

#[test]
fn test_utils_parse_single_message() {
    let test_message = AdbMessage::new(WRTE, 0x11111111, 0x22222222, b"test data".to_vec());

    let serialized = test_message.serialize();
    let parsed = parse_single_message(&serialized).unwrap();

    assert_eq!(parsed.command, WRTE);
    assert_eq!(parsed.arg0, 0x11111111);
    assert_eq!(parsed.arg1, 0x22222222);
    assert_eq!(parsed.data, b"test data".to_vec());
}

#[test]
fn test_utils_validate_header() {
    let test_message = AdbMessage::new(CLSE, 0x99999999, 0x11111111, Vec::new());
    let serialized = test_message.serialize();
    let header = &serialized[..HEADER_SIZE];

    let (command, arg0, arg1, data_length) = validate_header(header).unwrap();

    assert_eq!(command, AdbCommand::CLSE);
    assert_eq!(arg0, 0x99999999);
    assert_eq!(arg1, 0x11111111);
    assert_eq!(data_length, 0);
}

#[test]
fn parse_single_message_refuses_short_input() {
    let bytes = AdbMessage::new(WRTE, 1, 2, b"abc".to_vec()).serialize();
    assert!(parse_single_message(&bytes[..HEADER_SIZE - 1]).is_err());
    assert!(parse_single_message(&bytes).is_ok());
}

#[test]
fn test_message_serializer_single() {
    let mut serializer = MessageSerializer::new();

    let message = AdbMessage::new(CNXN, 0x01000000, 256 * 1024, b"test_system".to_vec());

    serializer.serialize_message(&message).unwrap();

    let data = serializer.take_data();
    assert!(!data.is_empty());
    assert_eq!(data.len(), HEADER_SIZE + "test_system".len());
}

#[test]
fn test_message_serializer_batch() {
    let mut serializer = MessageSerializer::new();

    let messages = vec![
        AdbMessage::new(CNXN, 1, 0, b"msg1".to_vec()),
        AdbMessage::new(OKAY, 2, 1, Vec::new()),
        AdbMessage::new(WRTE, 2, 1, b"data".to_vec()),
    ];

    serializer.serialize_batch(&messages).unwrap();

    let data = serializer.take_data();
    let expected_size = messages.iter().map(|m| HEADER_SIZE + m.data.len()).sum::<usize>();

    assert_eq!(data.len(), expected_size);
}

#[test]
fn test_stream_serializer_stats() {
    let mut stream_serializer = StreamSerializer::new();

    let message1 = AdbMessage::new(PING, 0, 0, Vec::new());
    let message2 = AdbMessage::new(PONG, 0, 0, Vec::new());

    stream_serializer.serialize_message(&message1).unwrap();
    stream_serializer.serialize_message(&message2).unwrap();

    let stats = stream_serializer.get_stats();
    assert_eq!(stats.message_count, 2);
    assert_eq!(stats.total_bytes_serialized, HEADER_SIZE * 2);
}

#[test]
fn test_utils_serialize_multiple() {
    let messages = vec![
        AdbMessage::new(OPEN, 1, 0, b"shell:".to_vec()),
        AdbMessage::new(OKAY, 0, 1, Vec::new()),
    ];

    let serialized = serialize_multiple(&messages);

    let expected_size = (HEADER_SIZE + "shell:".len()) + HEADER_SIZE;
    assert_eq!(serialized.len(), expected_size);
}

#[test]
fn test_message_sequence_builder() {
    let sequence = MessageSequenceBuilder::new()
        .add_connect(0x01000000, 256 * 1024, "test_device")
        .unwrap()
        .add_okay(1, 0)
        .unwrap()
        .add_open(2, "shell:")
        .unwrap()
        .build();

    assert_eq!(sequence.len(), 3);
    assert_eq!(sequence[0].command, CNXN);
    assert_eq!(sequence[1].command, OKAY);
    assert_eq!(sequence[2].command, OPEN);
}

#[test]
fn test_utils_response_pair() {
    let (response, okay) = create_response_pair(AdbCommand::OPEN, 1, 2, b"response_data".to_vec());

    assert_eq!(response.command, OPEN);
    assert_eq!(response.arg0, 1);
    assert_eq!(response.arg1, 2);
    assert_eq!(response.data, b"response_data".to_vec());

    assert_eq!(okay.command, OKAY);
    assert_eq!(okay.arg0, 1);
    assert_eq!(okay.arg1, 2);
    assert_eq!(okay.data, Vec::<u8>::new());
}

#[test]
fn test_serializer_buffer_limits() {
    let mut serializer = MessageSerializer::with_capacity(100);

    let large_data = vec![0u8; 200];
    let message = AdbMessage::new(WRTE, 1, 2, large_data);

    let result = serializer.serialize_message(&message);
    assert!(result.is_err());
}

#[test]
fn serialized_message_reads_back_equal() {
    let message = AdbMessage::new(WRTE, 7, 9, b"payload".to_vec());
    let bytes = message.serialize();
    let back = AdbMessage::deserialize(&bytes).unwrap();
    assert_eq!(back, message);
    assert_eq!(bytes.len(), HEADER_SIZE + 7);
    assert_eq!(&bytes[0..4], b"WRTE");
}

use dbgif_protocol::protocol::stream::{StreamManager as ConnectionStreams, StreamState as ConnectionStreamState};

#[test]
fn connection_streams_hand_out_increasing_ids() {
    let mut streams = ConnectionStreams::new();
    let a = streams.create_stream(7);
    let b = streams.create_stream(8);
    assert_eq!((a, b), (1, 2));
    assert_eq!(streams.stream_count(), 2);
    assert_eq!(streams.find_stream_by_remote_id(8).unwrap().local_id, 2);
    assert!(streams.find_stream_by_remote_id(9).is_none());
    streams.get_stream_mut(1).unwrap().open();
    assert_eq!(streams.get_stream(1).unwrap().state, ConnectionStreamState::Open);
    streams.close_all_streams();
    assert_eq!(streams.get_stream(2).unwrap().state, ConnectionStreamState::Closing);
    assert_eq!(streams.remove_stream(1).unwrap().remote_id, 7);
    assert!(streams.remove_stream(1).is_none());
    assert_eq!(streams.stream_count(), 1);
    assert_eq!(streams.create_stream(9), 3);
}

use dbgif_protocol::protocol::serializer::serialize_to_writer;

#[test]
fn serialized_message_goes_to_the_writer() {
    let message = AdbMessage::new(OKAY, 3, 4, b"hi".to_vec());
    let mut sink: Vec<u8> = Vec::new();
    let n = serialize_to_writer(&message, &mut sink).unwrap();
    assert_eq!(n, HEADER_SIZE + 2);
    assert_eq!(sink, message.serialize());
}

struct FailingWriter;

impl std::io::Write for FailingWriter {
    fn write(&mut self, _buf: &[u8]) -> std::io::Result<usize> {
        Err(std::io::Error::new(std::io::ErrorKind::Other, "disk full"))
    }
    fn flush(&mut self) -> std::io::Result<()> {
        Ok(())
    }
}

#[test]
fn failed_write_is_reported_with_context() {
    let message = dbgif_protocol::protocol::message::AdbMessage::new_ping();
    let err = dbgif_protocol::protocol::serializer::serialize_to_writer(&message, &mut FailingWriter).unwrap_err();
    assert!(err.starts_with("Failed to write serialized message: "));
    assert!(err.contains("disk full"));
}

#[test]
fn full_sequence_reports_its_limit() {
    let err = MessageSequenceBuilder::with_capacity(0).add_message(AdbMessage::new_ping()).err().unwrap();
    assert_eq!(err, SerializeError::SequenceFull { max: 0 });
    assert_eq!(err.to_string(), "Message sequence exceeds maximum length: 0");
    let over = SerializeError::BufferLimitExceeded { current: 10, additional: 24, max: 16 };
    assert_eq!(over.to_string(), "Output buffer would exceed maximum size: 10 + 24 > 16");
}

#[test]
fn capacity_admits_exactly_that_many_messages() {
    let mut b = MessageSequenceBuilder::with_capacity(3);
    for _ in 0..3 {
        b = b.add_message(AdbMessage::new_ping()).unwrap();
    }
    assert_eq!(b.len(), 3);
    assert!(b.add_message(AdbMessage::new_ping()).is_err());
}

#[test]
fn batch_sizes_add_up() {
    let a = vec![AdbMessage::new_ping(), AdbMessage::new_wrte(1, 2, b"abc".to_vec())];
    let b = vec![AdbMessage::new_okay(1, 2)];
    let mut all = a.clone();
    all.extend(b.clone());
    assert_eq!(calculate_batch_size(&all), calculate_batch_size(&a) + calculate_batch_size(&b));
    assert_eq!(calculate_batch_size(&[]), 0);
    assert_eq!(calculate_batch_size(&b), HEADER_SIZE);
}
