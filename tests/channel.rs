use opcua_server::channel::{read_chunk_info, ChunkAssembler, ChunkInfo, Connection, ConnectionState};
use opcua_server::message::{
    encode_message, AcknowledgeMessage, BufferSizes, ChunkKind, HelloMessage, Message,
    MessageBuffer, MessageChunk,
};
use opcua_server::status::StatusCode;
use opcua_server::string::UaString;

fn server_sizes() -> BufferSizes {
    BufferSizes {
        protocol_version: 0,
        receive_buffer_size: 65536,
        send_buffer_size: 65536,
        max_message_size: 65536,
        max_chunk_count: 5,
    }
}

fn client_hello(url: &str) -> Message {
    Message::Hello(HelloMessage {
        sizes: BufferSizes {
            protocol_version: 0,
            receive_buffer_size: 65536,
            send_buffer_size: 65536,
            max_message_size: 0,
            max_chunk_count: 0,
        },
        endpoint_url: UaString::from_str(url),
    })
}

fn chunk(kind: ChunkKind) -> Message {
    let tag: &[u8] = match kind {
        ChunkKind::Message => b"MSG",
        ChunkKind::OpenSecureChannel => b"OPN",
        ChunkKind::CloseSecureChannel => b"CLO",
    };
    let mut data = tag.to_vec();
    data.push(b'F');
    data.extend(8u32.to_le_bytes());
    Message::MessageChunk(MessageChunk { kind, is_final: b'F', data })
}

#[test]
fn hello_exchange() {
    let mut c = Connection::new(server_sizes());
    let reply = c.on_message(&client_hello("opc.tcp://127.0.0.1:4840")).unwrap().unwrap();
    assert_eq!(reply, Message::Acknowledge(AcknowledgeMessage { sizes: server_sizes() }));
    let bytes = encode_message(&reply).unwrap();
    let mut expected = b"ACKF".to_vec();
    for v in [28u32, 0, 65536, 65536, 65536, 5] {
        expected.extend(v.to_le_bytes());
    }
    assert_eq!(bytes, expected);
    assert_eq!(c.current_state(), ConnectionState::Acknowledged);
}

#[test]
fn hello_then_immediate_chunk() {
    let mut bytes = encode_message(&client_hello("opc.tcp://localhost:4855/")).unwrap();
    bytes.extend(encode_message(&chunk(ChunkKind::OpenSecureChannel)).unwrap());
    let mut buffer = MessageBuffer::new(65536);
    let messages = buffer.store_bytes(&bytes).unwrap();
    assert_eq!(messages.len(), 2);
    let mut c = Connection::new(server_sizes());
    assert!(matches!(c.on_message(&messages[0]), Ok(Some(Message::Acknowledge(_)))));
    assert_eq!(c.current_state(), ConnectionState::Acknowledged);
    assert_eq!(c.on_message(&messages[1]), Ok(None));
    assert_eq!(c.current_state(), ConnectionState::SecureChannelOpen);
    assert!(c.activate_session());
    assert_eq!(c.current_state(), ConnectionState::SessionActive);
}

#[test]
fn chunk_before_hello_is_rejected() {
    let mut c = Connection::new(server_sizes());
    assert_eq!(c.on_message(&chunk(ChunkKind::Message)), Err(StatusCode::BadTcpMessageTypeInvalid));
    assert_eq!(c.current_state(), ConnectionState::Closing);
}

#[test]
fn message_chunk_before_open_is_rejected() {
    let mut c = Connection::new(server_sizes());
    c.on_message(&client_hello("opc.tcp://h:1")).unwrap();
    assert_eq!(c.on_message(&chunk(ChunkKind::Message)), Err(StatusCode::BadTcpMessageTypeInvalid));
}

#[test]
fn bad_endpoint_url_is_rejected() {
    let mut c = Connection::new(server_sizes());
    assert_eq!(c.on_message(&client_hello("http://h:1")), Err(StatusCode::BadTcpEndpointUrlInvalid));
    assert_eq!(c.current_state(), ConnectionState::Closing);
}

#[test]
fn smaller_client_sizes_win() {
    let mut c = Connection::new(server_sizes());
    let hello = Message::Hello(HelloMessage {
        sizes: BufferSizes {
            protocol_version: 0,
            receive_buffer_size: 8192,
            send_buffer_size: 100000,
            max_message_size: 4096,
            max_chunk_count: 2,
        },
        endpoint_url: UaString::from_str("opc.tcp://h:1"),
    });
    let reply = c.on_message(&hello).unwrap().unwrap();
    assert_eq!(
        reply,
        Message::Acknowledge(AcknowledgeMessage {
            sizes: BufferSizes {
                protocol_version: 0,
                receive_buffer_size: 8192,
                send_buffer_size: 65536,
                max_message_size: 4096,
                max_chunk_count: 2,
            }
        })
    );
}

fn info(seq: u32) -> ChunkInfo {
    ChunkInfo { secure_channel_id: 1, token_id: 2, sequence_number: seq, request_id: 10 }
}

#[test]
fn sequence_gap_is_rejected() {
    let mut a = ChunkAssembler::new(1, 2, 1000);
    assert_eq!(a.accept_chunk(info(7), b'C', &[1, 2]), Ok(None));
    assert_eq!(a.accept_chunk(info(9), b'F', &[3]), Err(StatusCode::BadSequenceNumberInvalid));
}

#[test]
fn chunks_are_reassembled_in_order() {
    let mut a = ChunkAssembler::new(1, 2, 1000);
    assert_eq!(a.accept_chunk(info(7), b'C', &[1, 2]), Ok(None));
    assert_eq!(a.accept_chunk(info(8), b'F', &[3]), Ok(Some(vec![1, 2, 3])));
    assert_eq!(a.accept_chunk(info(9), b'F', &[4]), Ok(Some(vec![4])));
}

#[test]
fn abort_chunk_discards() {
    let mut a = ChunkAssembler::new(1, 2, 1000);
    a.accept_chunk(info(1), b'C', &[1, 2]).unwrap();
    assert_eq!(a.accept_chunk(info(2), b'A', &[]), Ok(None));
    assert_eq!(a.accept_chunk(info(3), b'F', &[9]), Ok(Some(vec![9])));
}

#[test]
fn request_too_large() {
    let mut a = ChunkAssembler::new(1, 2, 4);
    a.accept_chunk(info(1), b'C', &[1, 2, 3]).unwrap();
    assert_eq!(a.accept_chunk(info(2), b'F', &[4, 5]), Err(StatusCode::BadRequestTooLarge));
}

#[test]
fn wrong_channel_and_token() {
    let mut a = ChunkAssembler::new(1, 2, 100);
    let mut other = info(1);
    other.secure_channel_id = 5;
    assert_eq!(a.accept_chunk(other, b'F', &[]), Err(StatusCode::BadSecureChannelIdInvalid));
    let mut other = info(1);
    other.token_id = 5;
    assert_eq!(a.accept_chunk(other, b'F', &[]), Err(StatusCode::BadSecurityTokenRejected));
}

#[test]
fn chunk_info_is_read_from_header() {
    let mut data = b"MSGF".to_vec();
    for v in [28u32, 1, 2, 3, 4] {
        data.extend(v.to_le_bytes());
    }
    assert_eq!(
        read_chunk_info(&data),
        Ok(ChunkInfo { secure_channel_id: 1, token_id: 2, sequence_number: 3, request_id: 4 })
    );
    assert_eq!(read_chunk_info(&data[..20]), Err(StatusCode::BadDecodingError));
}
