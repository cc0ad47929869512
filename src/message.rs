//! UA-TCP framing: the 8-byte header, the Hello / Acknowledge / Error bodies, and the
//! message buffer that turns a byte stream into messages.
use vstd::prelude::*;
use crate::codec::{BinaryEncoder, Parsed, le_u32, u32_of_le, write_u8, write_u32, read_u32};
use crate::node_id::lemma_skip_concat;
use crate::string::{UaString, copy_bytes};
use crate::status::StatusCode;

verus! {

/// The length of the header that starts every message.
pub const MESSAGE_HEADER_LEN: usize = 8;

// ---------------------------------------------------------------- bodies

/// The buffer sizes that Hello and Acknowledge both carry.
#[derive(Debug, Clone, Copy, PartialEq, Eq, Structural)]
pub struct BufferSizes {
    pub protocol_version: u32,
    pub receive_buffer_size: u32,
    pub send_buffer_size: u32,
    pub max_message_size: u32,
    pub max_chunk_count: u32,
}

impl View for BufferSizes {
    type V = BufferSizes;

    open spec fn view(&self) -> BufferSizes {
        *self
    }
}

pub open spec fn sizes_encoding(v: BufferSizes) -> Seq<u8> {
    le_u32(v.protocol_version) + le_u32(v.receive_buffer_size) + le_u32(v.send_buffer_size)
        + le_u32(v.max_message_size) + le_u32(v.max_chunk_count)
}

pub open spec fn u32_at(s: Seq<u8>, i: int) -> u32 {
    u32_of_le(s[i], s[i + 1], s[i + 2], s[i + 3])
}

impl BinaryEncoder for BufferSizes {
    open spec fn encoding(v: BufferSizes) -> Seq<u8> {
        sizes_encoding(v)
    }

    open spec fn parse(s: Seq<u8>) -> Parsed<BufferSizes> {
        if s.len() < 20 {
            Err(StatusCode::BadDecodingError)
        } else {
            Ok(
                (
                    BufferSizes {
                        protocol_version: u32_at(s, 0),
                        receive_buffer_size: u32_at(s, 4),
                        send_buffer_size: u32_at(s, 8),
                        max_message_size: u32_at(s, 12),
                        max_chunk_count: u32_at(s, 16),
                    },
                    20,
                ),
            )
        }
    }

    open spec fn in_limits(v: BufferSizes) -> bool {
        true
    }

    proof fn lemma_round_trip(v: BufferSizes, rest: Seq<u8>) {
        let s = sizes_encoding(v) + rest;
        crate::codec::lemma_u32_le(v.protocol_version);
        crate::codec::lemma_u32_le(v.receive_buffer_size);
        crate::codec::lemma_u32_le(v.send_buffer_size);
        crate::codec::lemma_u32_le(v.max_message_size);
        crate::codec::lemma_u32_le(v.max_chunk_count);
        let e = sizes_encoding(v);
        assert forall|i: int| 0 <= i < 20 implies s[i] == e[i] by {}
        assert(u32_at(s, 0) == u32_at(e, 0));
        assert(u32_at(s, 4) == u32_at(e, 4));
        assert(u32_at(s, 8) == u32_at(e, 8));
        assert(u32_at(s, 12) == u32_at(e, 12));
        assert(u32_at(s, 16) == u32_at(e, 16));
    }

    proof fn lemma_parse_len(s: Seq<u8>) {
    }

    fn byte_len(&self) -> usize {
        20
    }

    fn encode(&self, buf: &mut Vec<u8>) -> Result<usize, StatusCode> {
        write_u32(buf, self.protocol_version);
        write_u32(buf, self.receive_buffer_size);
        write_u32(buf, self.send_buffer_size);
        write_u32(buf, self.max_message_size);
        write_u32(buf, self.max_chunk_count);
        assert(buf@ =~= old(buf)@ + sizes_encoding(*self));
        Ok(20)
    }

    fn decode(data: &[u8], pos: usize) -> Result<(BufferSizes, usize), StatusCode> {
        if data.len() - pos < 20 {
            return Err(StatusCode::BadDecodingError);
        }
        let ghost s = data@.skip(pos as int);
        let (protocol_version, _) = read_u32(data, pos).unwrap();
        let (receive_buffer_size, _) = read_u32(data, pos + 4).unwrap();
        let (send_buffer_size, _) = read_u32(data, pos + 8).unwrap();
        let (max_message_size, _) = read_u32(data, pos + 12).unwrap();
        let (max_chunk_count, _) = read_u32(data, pos + 16).unwrap();
        assert(data@.skip(pos + 4)[0] == s[4] && data@.skip(pos + 4)[3] == s[7]);
        Ok(
            (
                BufferSizes {
                    protocol_version,
                    receive_buffer_size,
                    send_buffer_size,
                    max_message_size,
                    max_chunk_count,
                },
                pos + 20,
            ),
        )
    }
}


// ---------------------------------------------------------------- messages

/// The three chunk message types: MSG, OPN and CLO.
#[derive(Debug, Clone, Copy, PartialEq, Eq, Structural)]
pub enum ChunkKind {
    Message,
    OpenSecureChannel,
    CloseSecureChannel,
}

pub open spec fn tag_hello() -> Seq<u8> {
    seq![72u8, 69u8, 76u8]
}

pub open spec fn tag_acknowledge() -> Seq<u8> {
    seq![65u8, 67u8, 75u8]
}

pub open spec fn tag_error() -> Seq<u8> {
    seq![69u8, 82u8, 82u8]
}

pub open spec fn tag_chunk(k: ChunkKind) -> Seq<u8> {
    match k {
        ChunkKind::Message => seq![77u8, 83u8, 71u8],
        ChunkKind::OpenSecureChannel => seq![79u8, 80u8, 78u8],
        ChunkKind::CloseSecureChannel => seq![67u8, 76u8, 79u8],
    }
}

/// The chunk type byte of a final chunk.
pub const FINAL: u8 = 70;
/// The chunk type byte of an intermediate chunk.
pub const INTERMEDIATE: u8 = 67;
/// The chunk type byte of an aborting chunk.
pub const ABORT: u8 = 65;

/// Hello: the client's buffer sizes and the endpoint it asks for.
#[derive(Debug, Clone, PartialEq, Eq)]
pub struct HelloMessage {
    pub sizes: BufferSizes,
    pub endpoint_url: UaString,
}

/// Acknowledge: the buffer sizes the server settled on.
#[derive(Debug, Clone, PartialEq, Eq)]
pub struct AcknowledgeMessage {
    pub sizes: BufferSizes,
}

/// Error: a status code and a reason.
#[derive(Debug, Clone, PartialEq, Eq)]
pub struct ErrorMessage {
    pub error: u32,
    pub reason: UaString,
}

/// One chunk of a service message, held as its whole wire bytes, header included.
#[derive(Debug, Clone, PartialEq, Eq)]
pub struct MessageChunk {
    pub kind: ChunkKind,
    pub is_final: u8,
    pub data: Vec<u8>,
}

/// A framed protocol message.
#[derive(Debug, Clone, PartialEq, Eq)]
pub enum Message {
    Hello(HelloMessage),
    Acknowledge(AcknowledgeMessage),
    Error(ErrorMessage),
    MessageChunk(MessageChunk),
}

pub enum MessageView {
    Hello(BufferSizes, Option<Seq<u8>>),
    Acknowledge(BufferSizes),
    Error(u32, Option<Seq<u8>>),
    Chunk(ChunkKind, u8, Seq<u8>),
}

impl View for Message {
    type V = MessageView;

    open spec fn view(&self) -> MessageView {
        match self {
            Message::Hello(h) => MessageView::Hello(h.sizes, h.endpoint_url@),
            Message::Acknowledge(a) => MessageView::Acknowledge(a.sizes),
            Message::Error(e) => MessageView::Error(e.error, e.reason@),
            Message::MessageChunk(c) => MessageView::Chunk(c.kind, c.is_final, c.data@),
        }
    }
}

pub open spec fn header(tag: Seq<u8>, is_final: u8, size: u32) -> Seq<u8> {
    tag + seq![is_final] + le_u32(size)
}

pub open spec fn body_of(m: MessageView) -> Seq<u8> {
    match m {
        MessageView::Hello(sizes, url) => sizes_encoding(sizes) + UaString::encoding(url),
        MessageView::Acknowledge(sizes) => sizes_encoding(sizes),
        MessageView::Error(code, reason) => le_u32(code) + UaString::encoding(reason),
        MessageView::Chunk(_, _, data) => data.skip(8),
    }
}

pub open spec fn tag_of(m: MessageView) -> Seq<u8> {
    match m {
        MessageView::Hello(..) => tag_hello(),
        MessageView::Acknowledge(..) => tag_acknowledge(),
        MessageView::Error(..) => tag_error(),
        MessageView::Chunk(k, _, _) => tag_chunk(k),
    }
}

/// The wire bytes of a message; a chunk is already held as its wire bytes.
pub open spec fn message_encoding(m: MessageView) -> Seq<u8> {
    match m {
        MessageView::Chunk(_, _, data) => data,
        _ => header(tag_of(m), FINAL, (8 + body_of(m).len()) as u32) + body_of(m),
    }
}

/// A message that can be written: strings within limits, a size that fits the header,
/// and for a chunk, bytes that frame themselves as that chunk.
pub open spec fn message_valid(m: MessageView) -> bool {
    match m {
        MessageView::Hello(_, url) => UaString::in_limits(url),
        MessageView::Acknowledge(_) => true,
        MessageView::Error(_, reason) => UaString::in_limits(reason),
        MessageView::Chunk(k, f, data) => {
            &&& data.len() >= 8
            &&& data.len() <= 0xffff_ffff
            &&& data.take(3) == tag_chunk(k)
            &&& data[3] == f
            &&& u32_at(data, 4) == data.len()
        },
    }
}

/// Reads a whole message, header included.
pub open spec fn parse_message(s: Seq<u8>) -> Result<MessageView, StatusCode> {
    let tag = s.take(3);
    let body = s.skip(8);
    if tag == tag_hello() {
        match BufferSizes::parse(body) {
            Err(e) => Err(e),
            Ok((sizes, _)) => match UaString::parse(body.skip(20)) {
                Err(e) => Err(e),
                Ok((url, _)) => Ok(MessageView::Hello(sizes, url)),
            },
        }
    } else if tag == tag_acknowledge() {
        match BufferSizes::parse(body) {
            Err(e) => Err(e),
            Ok((sizes, _)) => Ok(MessageView::Acknowledge(sizes)),
        }
    } else if tag == tag_error() {
        match <u32 as BinaryEncoder>::parse(body) {
            Err(e) => Err(e),
            Ok((code, _)) => match UaString::parse(body.skip(4)) {
                Err(e) => Err(e),
                Ok((reason, _)) => Ok(MessageView::Error(code, reason)),
            },
        }
    } else if tag == tag_chunk(ChunkKind::Message) {
        Ok(MessageView::Chunk(ChunkKind::Message, s[3], s))
    } else if tag == tag_chunk(ChunkKind::OpenSecureChannel) {
        Ok(MessageView::Chunk(ChunkKind::OpenSecureChannel, s[3], s))
    } else if tag == tag_chunk(ChunkKind::CloseSecureChannel) {
        Ok(MessageView::Chunk(ChunkKind::CloseSecureChannel, s[3], s))
    } else {
        Err(StatusCode::BadCommunicationError)
    }
}

/// What the front of a buffer holds.
pub enum Frame {
    /// Fewer bytes than the header, or than the size it announces.
    Incomplete,
    /// A header or a message that cannot be accepted.
    Bad(StatusCode),
    /// A whole message and the number of bytes it takes.
    Complete(MessageView, nat),
}

/// The size a header announces; `max_message_size` 0 means no limit.
pub open spec fn frame(s: Seq<u8>, max_message_size: nat) -> Frame {
    if s.len() < MESSAGE_HEADER_LEN {
        Frame::Incomplete
    } else {
        let size = u32_at(s, 4) as nat;
        if size < MESSAGE_HEADER_LEN {
            Frame::Bad(StatusCode::BadDecodingError)
        } else if max_message_size > 0 && size > max_message_size {
            Frame::Bad(StatusCode::BadTcpMessageTooLarge)
        } else if s.len() < size {
            Frame::Incomplete
        } else {
            match parse_message(s.take(size as int)) {
                Err(e) => Frame::Bad(e),
                Ok(m) => Frame::Complete(m, size),
            }
        }
    }
}

/// The messages that a buffer holds, and the bytes left over.
pub struct Extracted {
    pub result: Result<Seq<MessageView>, StatusCode>,
    pub retained: Seq<u8>,
}

pub open spec fn prepend(ms: Seq<MessageView>, x: Extracted) -> Extracted {
    Extracted {
        result: match x.result {
            Ok(rest) => Ok(ms + rest),
            Err(e) => Err(e),
        },
        retained: x.retained,
    }
}

/// Peels whole messages off the front of `s` until an incomplete one, or a bad one.
pub open spec fn extract(s: Seq<u8>, max_message_size: nat) -> Extracted
    decreases s.len(),
{
    match frame(s, max_message_size) {
        Frame::Incomplete => Extracted { result: Ok(seq![]), retained: s },
        Frame::Bad(e) => Extracted { result: Err(e), retained: s },
        Frame::Complete(m, n) => if 0 < n <= s.len() {
            prepend(seq![m], extract(s.skip(n as int), max_message_size))
        } else {
            Extracted { result: Ok(seq![]), retained: s }
        },
    }
}


pub open spec fn message_result_matches(
    r: Result<Message, StatusCode>,
    p: Result<MessageView, StatusCode>,
) -> bool {
    match (r, p) {
        (Ok(m), Ok(v)) => m@ == v,
        (Err(e), Err(f)) => e == f,
        _ => false,
    }
}

fn tag_is(msg: &[u8], a: u8, b: u8, c: u8) -> (r: bool)
    requires
        msg@.len() >= 3,
    ensures
        r == (msg@.take(3) == seq![a, b, c]),
{
    let r = msg[0] == a && msg[1] == b && msg[2] == c;
    if r {
        assert(msg@.take(3) =~= seq![a, b, c]);
    } else {
        assert(msg@.take(3)[0] == msg@[0] && msg@.take(3)[1] == msg@[1] && msg@.take(3)[2]
            == msg@[2]);
    }
    r
}

/// Reads one whole message, header included.
pub fn decode_message(msg: &[u8]) -> (r: Result<Message, StatusCode>)
    requires
        msg@.len() >= MESSAGE_HEADER_LEN,
    ensures
        message_result_matches(r, parse_message(msg@)),
{
    let ghost body = msg@.skip(8);
    if tag_is(msg, 72, 69, 76) {
        let (sizes, p) = match BufferSizes::decode(msg, 8) {
            Ok(x) => x,
            Err(e) => return Err(e),
        };
        assert(body.skip(20) =~= msg@.skip(p as int));
        match UaString::decode(msg, p) {
            Ok((endpoint_url, _)) => Ok(Message::Hello(HelloMessage { sizes, endpoint_url })),
            Err(e) => Err(e),
        }
    } else if tag_is(msg, 65, 67, 75) {
        match BufferSizes::decode(msg, 8) {
            Ok((sizes, _)) => Ok(Message::Acknowledge(AcknowledgeMessage { sizes })),
            Err(e) => Err(e),
        }
    } else if tag_is(msg, 69, 82, 82) {
        let (error, p) = match <u32 as BinaryEncoder>::decode(msg, 8) {
            Ok(x) => x,
            Err(e) => return Err(e),
        };
        assert(body.skip(4) =~= msg@.skip(p as int));
        match UaString::decode(msg, p) {
            Ok((reason, _)) => Ok(Message::Error(ErrorMessage { error, reason })),
            Err(e) => Err(e),
        }
    } else {
        let kind = if tag_is(msg, 77, 83, 71) {
            ChunkKind::Message
        } else if tag_is(msg, 79, 80, 78) {
            ChunkKind::OpenSecureChannel
        } else if tag_is(msg, 67, 76, 79) {
            ChunkKind::CloseSecureChannel
        } else {
            return Err(StatusCode::BadCommunicationError);
        };
        let data = copy_bytes(msg, 0, msg.len());
        assert(data@ =~= msg@);
        Ok(Message::MessageChunk(MessageChunk { kind, is_final: msg[3], data }))
    }
}

/// Accumulates received bytes and peels complete messages off the front.
pub struct MessageBuffer {
    in_buffer: Vec<u8>,
    max_message_size: usize,
}

impl MessageBuffer {
    /// The bytes received and not yet taken as messages.
    pub closed spec fn retained(&self) -> Seq<u8> {
        self.in_buffer@
    }

    /// The largest message accepted; 0 means no limit.
    pub closed spec fn max_size(&self) -> nat {
        self.max_message_size as nat
    }

    /// An empty buffer that accepts messages of up to `max_message_size` bytes
    /// (0: no limit).
    pub fn new(max_message_size: usize) -> (r: MessageBuffer)
        ensures
            r.retained() == Seq::<u8>::empty(),
            r.max_size() == max_message_size,
    {
        MessageBuffer { in_buffer: Vec::new(), max_message_size }
    }

    /// The bytes received and not yet taken as messages.
    pub fn pending(&self) -> (r: &Vec<u8>)
        ensures
            r@ == self.retained(),
    {
        &self.in_buffer
    }

    /// Stores `bytes` and returns the complete messages now at the front, in order.
    /// Bytes of an unfinished message stay for the next call; on an error the
    /// offending message and what follows it stay.
    pub fn store_bytes(&mut self, bytes: &[u8]) -> (r: Result<Vec<Message>, StatusCode>)
        requires
            old(self).retained().len() + bytes@.len() <= usize::MAX,
        ensures
            final(self).max_size() == old(self).max_size(),
            final(self).retained() == extract(
                old(self).retained() + bytes@,
                old(self).max_size(),
            ).retained,
            match (r, extract(old(self).retained() + bytes@, old(self).max_size()).result) {
                (Ok(ms), Ok(vs)) => crate::array::views(ms@) == vs,
                (Err(e), Err(f)) => e == f,
                _ => false,
            },
    {
        let ghost total = self.in_buffer@ + bytes@;
        let ghost max = self.max_message_size as nat;
        let mut i: usize = 0;
        while i < bytes.len()
            invariant
                total == old(self).in_buffer@ + bytes@,
                max == old(self).max_message_size as nat,
                i <= bytes@.len(),
                self.in_buffer@ == old(self).in_buffer@ + bytes@.take(i as int),
                self.max_message_size == old(self).max_message_size,
                old(self).in_buffer@.len() + bytes@.len() <= usize::MAX,
            decreases bytes@.len() - i,
        {
            self.in_buffer.push(bytes[i]);
            i = i + 1;
            assert(self.in_buffer@ =~= old(self).in_buffer@ + bytes@.take(i as int));
        }
        assert(bytes@.take(i as int) =~= bytes@);
        let mut messages: Vec<Message> = Vec::new();
        assert(crate::array::views(messages@) =~= seq![]);
        assert(prepend(seq![], extract(total, max)) == extract(total, max)) by {
            if let Ok(rest) = extract(total, max).result {
                assert(seq![] + rest =~= rest);
            }
        }
        while self.in_buffer.len() >= MESSAGE_HEADER_LEN
            invariant
                self.max_message_size == old(self).max_message_size,
                max == self.max_message_size as nat,
                total == old(self).in_buffer@ + bytes@,
                extract(total, max) == prepend(
                    crate::array::views(messages@),
                    extract(self.in_buffer@, max),
                ),
            ensures
                self.max_message_size == old(self).max_message_size,
                extract(total, max) == prepend(
                    crate::array::views(messages@),
                    extract(self.in_buffer@, max),
                ),
                extract(self.in_buffer@, max).result == Ok::<Seq<MessageView>, StatusCode>(seq![]),
                extract(self.in_buffer@, max).retained == self.in_buffer@,
            decreases self.in_buffer@.len(),
        {
            let ghost s = self.in_buffer@;
            let b = self.in_buffer.as_slice();
            let size = match read_u32(b, 4) {
                Ok((x, _)) => x as usize,
                Err(e) => return Err(e),
            };
            assert(size as nat == u32_at(s, 4) as nat);
            if size < MESSAGE_HEADER_LEN {
                return Err(StatusCode::BadDecodingError);
            }
            if self.max_message_size > 0 && size > self.max_message_size {
                return Err(StatusCode::BadTcpMessageTooLarge);
            }
            if self.in_buffer.len() < size {
                break;
            }
            let msg_bytes = vstd::slice::slice_subrange(b, 0, size);
            let message = match decode_message(msg_bytes) {
                Ok(m) => m,
                Err(e) => return Err(e),
            };
            let rest = self.in_buffer.split_off(size);
            self.in_buffer = rest;
            proof {
                let x = extract(self.in_buffer@, max);
                let ms = crate::array::views(messages@);
                assert(self.in_buffer@ =~= s.skip(size as int));
                if let Ok(r) = x.result {
                    assert(ms + (seq![message@] + r) =~= ms.push(message@) + r);
                }
            }
            let ghost prev = messages@;
            messages.push(message);
            assert(crate::array::views(messages@) =~= crate::array::views(prev).push(message@));
        }
        proof {
            assert(crate::array::views(messages@) + seq![] =~= crate::array::views(messages@));
        }
        Ok(messages)
    }
}


/// A message whose strings fit the limits; a chunk is written as the bytes it holds.
pub open spec fn encodable(m: MessageView) -> bool {
    match m {
        MessageView::Hello(_, url) => UaString::in_limits(url),
        MessageView::Error(_, reason) => UaString::in_limits(reason),
        _ => true,
    }
}

fn write_header(buf: &mut Vec<u8>, a: u8, b: u8, c: u8, size: u32)
    ensures
        final(buf)@ == old(buf)@ + header(seq![a, b, c], FINAL, size),
{
    write_u8(buf, a);
    write_u8(buf, b);
    write_u8(buf, c);
    write_u8(buf, FINAL);
    write_u32(buf, size);
    assert(buf@ =~= old(buf)@ + header(seq![a, b, c], FINAL, size));
}

/// The wire bytes of a message, or `BadEncodingLimitsExceeded` when a string is too long.
pub fn encode_message(m: &Message) -> (r: Result<Vec<u8>, StatusCode>)
    ensures
        r is Ok <==> encodable(m@),
        r matches Ok(v) ==> v@ == message_encoding(m@),
        r matches Err(e) ==> e == StatusCode::BadEncodingLimitsExceeded,
{
    let mut buf: Vec<u8> = Vec::new();
    match m {
        Message::Hello(h) => {
            if !h.endpoint_url.within_limits() {
                return Err(StatusCode::BadEncodingLimitsExceeded);
            }
            let size = 28 + h.endpoint_url.byte_len();
            write_header(&mut buf, 72, 69, 76, size as u32);
            let _ = h.sizes.encode(&mut buf);
            let _ = h.endpoint_url.encode(&mut buf);
            assert(buf@ =~= message_encoding(m@));
        },
        Message::Acknowledge(a) => {
            write_header(&mut buf, 65, 67, 75, 28);
            let _ = a.sizes.encode(&mut buf);
            assert(buf@ =~= message_encoding(m@));
        },
        Message::Error(e) => {
            if !e.reason.within_limits() {
                return Err(StatusCode::BadEncodingLimitsExceeded);
            }
            let size = 12 + e.reason.byte_len();
            write_header(&mut buf, 69, 82, 82, size as u32);
            let _ = e.error.encode(&mut buf);
            let _ = e.reason.encode(&mut buf);
            assert(buf@ =~= message_encoding(m@));
        },
        Message::MessageChunk(c) => {
            buf = copy_bytes(c.data.as_slice(), 0, c.data.len());
            assert(buf@ =~= c.data@);
        },
    }
    Ok(buf)
}

// ---------------------------------------------------------------- laws of the message buffer

/// Reading a message looks at its own bytes only.
pub proof fn lemma_frame_prefix(s: Seq<u8>, t: Seq<u8>, max: nat)
    requires
        frame(s, max) is Complete,
    ensures
        frame(s + t, max) == frame(s, max),
{
    let size = u32_at(s, 4) as int;
    assert((s + t)[4] == s[4] && (s + t)[5] == s[5] && (s + t)[6] == s[6] && (s + t)[7] == s[7]);
    assert((s + t).take(size) =~= s.take(size));
}

/// Feeding bytes in two pieces gives the messages of feeding them at once: the
/// messages of the first piece, then those of what it left over followed by the second.
pub proof fn lemma_feed_in_pieces(s1: Seq<u8>, s2: Seq<u8>, max: nat)
    requires
        extract(s1, max).result is Ok,
    ensures
        extract(s1 + s2, max) == prepend(
            extract(s1, max).result->Ok_0,
            extract(extract(s1, max).retained + s2, max),
        ),
    decreases s1.len(),
{
    match frame(s1, max) {
        Frame::Complete(m, n) => {
            lemma_frame_prefix(s1, s2, max);
            let rest = s1.skip(n as int);
            assert((s1 + s2).skip(n as int) =~= rest + s2);
            lemma_feed_in_pieces(rest, s2, max);
            let x = extract(extract(rest, max).retained + s2, max);
            if let Ok(r) = x.result {
                let ms = extract(rest, max).result->Ok_0;
                assert(seq![m] + (ms + r) =~= (seq![m] + ms) + r);
            }
        },
        _ => {
            if let Ok(r) = extract(s1 + s2, max).result {
                assert(seq![] + r =~= r);
            }
        },
    }
}

/// After a successful feed the buffer never holds a complete message: what is
/// retained is shorter than a header, or shorter than the size its header announces.
pub proof fn lemma_retained_incomplete(s: Seq<u8>, max: nat)
    requires
        extract(s, max).result is Ok,
    ensures
        ({
            let r = extract(s, max).retained;
            r.len() < MESSAGE_HEADER_LEN || r.len() < u32_at(r, 4)
        }),
    decreases s.len(),
{
    if let Frame::Complete(m, n) = frame(s, max) {
        lemma_retained_incomplete(s.skip(n as int), max);
    }
}


/// A valid message, followed by anything, frames as itself.
pub proof fn lemma_frame_message(m: MessageView, rest: Seq<u8>, max: nat)
    requires
        message_valid(m),
        max == 0 || message_encoding(m).len() <= max,
    ensures
        frame(message_encoding(m) + rest, max) == Frame::Complete(m, message_encoding(m).len()),
{
    let e = message_encoding(m);
    let s = e + rest;
    assert(s.take(e.len() as int) =~= e);
    assert(tag_hello()[0] == 72 && tag_acknowledge()[0] == 65 && tag_error()[0] == 69);
    assert(tag_acknowledge()[1] == 67 && tag_chunk(ChunkKind::CloseSecureChannel)[1] == 76);
    match m {
        MessageView::Chunk(k, f, data) => {
            assert(s[4] == e[4] && s[5] == e[5] && s[6] == e[6] && s[7] == e[7]);
            assert(tag_chunk(k)[0] == data[0] && tag_chunk(k)[1] == data[1]);
        },
        _ => {
            let body = body_of(m);
            let size = (8 + body.len()) as u32;
            crate::codec::lemma_u32_le(size);
            assert(e.take(3) =~= tag_of(m));
            assert(e.skip(8) =~= body);
            let h = header(tag_of(m), FINAL, size);
            assert(s[4] == h[4] && s[5] == h[5] && s[6] == h[6] && s[7] == h[7]);
            match m {
                MessageView::Hello(sizes, url) => {
                    let u = UaString::encoding(url);
                    BufferSizes::lemma_round_trip(sizes, u);
                    lemma_skip_concat(sizes_encoding(sizes), u);
                    assert(u + seq![] =~= u);
                    UaString::lemma_round_trip(url, seq![]);
                },
                MessageView::Acknowledge(sizes) => {
                    assert(sizes_encoding(sizes) + seq![] =~= sizes_encoding(sizes));
                    BufferSizes::lemma_round_trip(sizes, seq![]);
                },
                MessageView::Error(code, reason) => {
                    let u = UaString::encoding(reason);
                    <u32 as BinaryEncoder>::lemma_round_trip(code, u);
                    lemma_skip_concat(le_u32(code), u);
                    assert(u + seq![] =~= u);
                    UaString::lemma_round_trip(reason, seq![]);
                },
                _ => {},
            }
        },
    }
}

/// Two valid messages, back to back, come out as those two messages and leave nothing.
#[verifier::rlimit(50)]
pub proof fn lemma_two_messages(m1: MessageView, m2: MessageView, max: nat)
    requires
        message_valid(m1),
        message_valid(m2),
        max == 0 || message_encoding(m1).len() <= max,
        max == 0 || message_encoding(m2).len() <= max,
    ensures
        extract(message_encoding(m1) + message_encoding(m2), max) == (Extracted {
            result: Ok(seq![m1, m2]),
            retained: Seq::<u8>::empty(),
        }),
{
    let e1 = message_encoding(m1);
    let e2 = message_encoding(m2);
    let s = e1 + e2;
    lemma_frame_message(m1, e2, max);
    lemma_skip_concat(e1, e2);
    assert(e2 + seq![] =~= e2);
    lemma_frame_message(m2, seq![], max);
    let empty = Seq::<u8>::empty();
    assert(e2.skip(e2.len() as int) =~= empty);
    assert(frame(empty, max) is Incomplete);
    assert(extract(empty, max) == Extracted { result: Ok(seq![]), retained: empty });
    assert(extract(e2, max) == prepend(seq![m2], extract(empty, max)));
    assert(extract(s, max) == prepend(seq![m1], extract(e2, max)));
    assert(seq![m1] + (seq![m2] + seq![]) =~= seq![m1, m2]);
}


/// Feeding a prefix of bytes that frame without error frames without error too.
pub proof fn lemma_prefix_ok(t: Seq<u8>, k: int, max: nat)
    requires
        0 <= k <= t.len(),
        extract(t, max).result is Ok,
    ensures
        extract(t.take(k), max).result is Ok,
    decreases t.len(),
{
    let p = t.take(k);
    if p.len() >= MESSAGE_HEADER_LEN {
        assert(p[4] == t[4] && p[5] == t[5] && p[6] == t[6] && p[7] == t[7]);
    }
    if let Frame::Complete(m, n) = frame(t, max) {
        if k >= n {
            assert(p.take(n as int) =~= t.take(n as int));
            assert(frame(p, max) == frame(t, max));
            assert(p.skip(n as int) =~= t.skip(n as int).take(k - n));
            lemma_prefix_ok(t.skip(n as int), k - n, max);
        }
    }
}

/// Two valid messages, fed in two pieces split anywhere, come out as those two
/// messages, in order, and leave nothing behind.
pub proof fn lemma_any_split(m1: MessageView, m2: MessageView, k: int, max: nat)
    requires
        message_valid(m1),
        message_valid(m2),
        max == 0 || message_encoding(m1).len() <= max,
        max == 0 || message_encoding(m2).len() <= max,
        0 <= k <= message_encoding(m1).len() + message_encoding(m2).len(),
    ensures
        ({
            let s = message_encoding(m1) + message_encoding(m2);
            let first = extract(s.take(k), max);
            &&& first.result is Ok
            &&& prepend(first.result->Ok_0, extract(first.retained + s.skip(k), max)) == (
            Extracted { result: Ok(seq![m1, m2]), retained: Seq::<u8>::empty() })
        }),
{
    let s = message_encoding(m1) + message_encoding(m2);
    lemma_two_messages(m1, m2, max);
    lemma_prefix_ok(s, k, max);
    lemma_feed_in_pieces(s.take(k), s.skip(k), max);
    assert(s.take(k) + s.skip(k) =~= s);
}

} // verus!
