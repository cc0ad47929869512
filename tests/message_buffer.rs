use opcua_server::message::{
    encode_message, AcknowledgeMessage, BufferSizes, ChunkKind, ErrorMessage, HelloMessage,
    Message, MessageBuffer, MessageChunk,
};
use opcua_server::status::StatusCode;
use opcua_server::string::UaString;

fn sizes(v: u32, r: u32, s: u32, m: u32, c: u32) -> BufferSizes {
    BufferSizes {
        protocol_version: v,
        receive_buffer_size: r,
        send_buffer_size: s,
        max_message_size: m,
        max_chunk_count: c,
    }
}

fn hello() -> Message {
    Message::Hello(HelloMessage {
        sizes: sizes(0, 65536, 65536, 0, 0),
        endpoint_url: UaString::from_str("opc.tcp://127.0.0.1:4840"),
    })
}

fn ack() -> Message {
    Message::Acknowledge(AcknowledgeMessage { sizes: sizes(0, 65536, 65536, 65536, 5) })
}

#[test]
fn two_messages_in_any_split() {
    let mut bytes = encode_message(&hello()).unwrap();
    bytes.extend(encode_message(&ack()).unwrap());
    for split in 0..=bytes.len() {
        let mut buffer = MessageBuffer::new(0);
        let mut got = buffer.store_bytes(&bytes[..split]).unwrap();
        got.extend(buffer.store_bytes(&bytes[split..]).unwrap());
        assert_eq!(got, vec![hello(), ack()]);
        assert!(buffer.pending().is_empty());
    }
}

#[test]
fn byte_by_byte_feed() {
    let mut bytes = encode_message(&ack()).unwrap();
    bytes.extend(encode_message(&hello()).unwrap());
    let mut buffer = MessageBuffer::new(0);
    let mut got = Vec::new();
    for b in &bytes {
        got.extend(buffer.store_bytes(&[*b]).unwrap());
    }
    assert_eq!(got, vec![ack(), hello()]);
}

#[test]
fn unfinished_prefix_is_retained() {
    let bytes = encode_message(&hello()).unwrap();
    let mut buffer = MessageBuffer::new(0);
    assert_eq!(buffer.store_bytes(&bytes[..10]).unwrap(), vec![]);
    assert_eq!(buffer.pending().as_slice(), &bytes[..10]);
}

#[test]
fn retained_is_shorter_than_announced() {
    let bytes = encode_message(&hello()).unwrap();
    let mut buffer = MessageBuffer::new(0);
    buffer.store_bytes(&bytes[..bytes.len() - 1]).unwrap();
    let pending = buffer.pending();
    let announced = u32::from_le_bytes([pending[4], pending[5], pending[6], pending[7]]) as usize;
    assert!(pending.len() < 8 || pending.len() < announced);
}

#[test]
fn header_only_message_decodes() {
    let bytes = vec![b'M', b'S', b'G', b'F', 8, 0, 0, 0];
    let mut buffer = MessageBuffer::new(0);
    let got = buffer.store_bytes(&bytes).unwrap();
    assert_eq!(
        got,
        vec![Message::MessageChunk(MessageChunk { kind: ChunkKind::Message, is_final: b'F', data: bytes.clone() })]
    );
    assert!(buffer.pending().is_empty());
}

#[test]
fn message_one_over_maximum_is_too_large() {
    let mut bytes = vec![b'M', b'S', b'G', b'F', 101, 0, 0, 0];
    bytes.extend(vec![0u8; 93]);
    let mut buffer = MessageBuffer::new(100);
    assert_eq!(buffer.store_bytes(&bytes), Err(StatusCode::BadTcpMessageTooLarge));
    let mut exact = vec![b'M', b'S', b'G', b'F', 100, 0, 0, 0];
    exact.extend(vec![0u8; 92]);
    let mut buffer = MessageBuffer::new(100);
    assert_eq!(buffer.store_bytes(&exact).unwrap().len(), 1);
}

#[test]
fn unknown_message_type_is_communication_error() {
    let bytes = vec![b'X', b'Y', b'Z', b'F', 8, 0, 0, 0];
    let mut buffer = MessageBuffer::new(0);
    assert_eq!(buffer.store_bytes(&bytes), Err(StatusCode::BadCommunicationError));
}

#[test]
fn error_message_round_trips() {
    let e = Message::Error(ErrorMessage { error: 0x8005_0000, reason: UaString::from_str("bad") });
    let bytes = encode_message(&e).unwrap();
    assert_eq!(&bytes[..4], b"ERRF");
    assert_eq!(bytes.len(), 8 + 4 + 4 + 3);
    let mut buffer = MessageBuffer::new(0);
    assert_eq!(buffer.store_bytes(&bytes).unwrap(), vec![e]);
}
