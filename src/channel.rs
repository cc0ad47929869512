//! The per-connection handshake state machine and the chunk assembler of a secure
//! channel.
use vstd::prelude::*;
use crate::codec::read_u32;
use crate::message::{
    Message, MessageView, BufferSizes, AcknowledgeMessage, ChunkKind, FINAL, INTERMEDIATE, ABORT,
    u32_at,
};
use crate::string::UaString;
use crate::status::StatusCode;

verus! {

// ---------------------------------------------------------------- handshake

/// Where a connection stands in its handshake.
#[derive(Debug, Clone, Copy, PartialEq, Eq, Structural)]
pub enum ConnectionState {
    New,
    HelloReceived,
    Acknowledged,
    SecureChannelOpen,
    SessionActive,
    Closing,
}

/// The URL prefix of the binary TCP transport.
pub open spec fn opc_tcp_prefix() -> Seq<u8> {
    seq![111u8, 112u8, 99u8, 46u8, 116u8, 99u8, 112u8, 58u8, 47u8, 47u8]
}

/// An endpoint URL of the form `opc.tcp://...`.
pub open spec fn endpoint_url_valid(url: Option<Seq<u8>>) -> bool {
    url matches Some(u) && u.len() >= 10 && u.take(10) == opc_tcp_prefix()
}

pub open spec fn min_u32(a: u32, b: u32) -> u32 {
    if a <= b {
        a
    } else {
        b
    }
}

/// A limit the client may leave open with 0.
pub open spec fn limit_u32(client: u32, server: u32) -> u32 {
    if client == 0 {
        server
    } else {
        min_u32(client, server)
    }
}

/// The sizes the server acknowledges: the smaller of each pair; a maximum that the
/// client leaves at 0 takes the server's.
pub open spec fn negotiate(client: BufferSizes, server: BufferSizes) -> BufferSizes {
    BufferSizes {
        protocol_version: server.protocol_version,
        receive_buffer_size: min_u32(client.receive_buffer_size, server.receive_buffer_size),
        send_buffer_size: min_u32(client.send_buffer_size, server.send_buffer_size),
        max_message_size: limit_u32(client.max_message_size, server.max_message_size),
        max_chunk_count: limit_u32(client.max_chunk_count, server.max_chunk_count),
    }
}

/// The handshake's response to one message: the next state, and the reply or error.
pub open spec fn transition(state: ConnectionState, m: MessageView, server: BufferSizes) -> (
    ConnectionState,
    Result<Option<MessageView>, StatusCode>,
) {
    match (state, m) {
        (ConnectionState::New, MessageView::Hello(client, url)) => if endpoint_url_valid(url) {
            (
                ConnectionState::Acknowledged,
                Ok(Some(MessageView::Acknowledge(negotiate(client, server)))),
            )
        } else {
            (ConnectionState::Closing, Err(StatusCode::BadTcpEndpointUrlInvalid))
        },
        (ConnectionState::Acknowledged, MessageView::Chunk(ChunkKind::OpenSecureChannel, _, _)) => (
            ConnectionState::SecureChannelOpen,
            Ok(None),
        ),
        (ConnectionState::SecureChannelOpen, MessageView::Chunk(..)) => (
            ConnectionState::SecureChannelOpen,
            Ok(None),
        ),
        (ConnectionState::SessionActive, MessageView::Chunk(..)) => (
            ConnectionState::SessionActive,
            Ok(None),
        ),
        _ => (ConnectionState::Closing, Err(StatusCode::BadTcpMessageTypeInvalid)),
    }
}

fn min_of(a: u32, b: u32) -> (r: u32)
    ensures
        r == min_u32(a, b),
{
    if a <= b {
        a
    } else {
        b
    }
}

fn limit_of(client: u32, server: u32) -> (r: u32)
    ensures
        r == limit_u32(client, server),
{
    if client == 0 {
        server
    } else {
        min_of(client, server)
    }
}

/// Whether a URL names the binary TCP transport.
pub fn is_opc_tcp_url(url: &UaString) -> (r: bool)
    ensures
        r == endpoint_url_valid(url@),
{
    match &url.value {
        None => false,
        Some(u) => {
            if u.len() < 10 {
                return false;
            }
            let ok = u[0] == 111 && u[1] == 112 && u[2] == 99 && u[3] == 46 && u[4] == 116 && u[5]
                == 99 && u[6] == 112 && u[7] == 58 && u[8] == 47 && u[9] == 47;
            if !ok {
                let ghost t = u@.take(10);
                assert(t[0] == u@[0] && t[1] == u@[1] && t[2] == u@[2] && t[3] == u@[3] && t[4]
                    == u@[4]);
                assert(t[5] == u@[5] && t[6] == u@[6] && t[7] == u@[7] && t[8] == u@[8] && t[9]
                    == u@[9]);
                let ghost p = opc_tcp_prefix();
                assert(p[0] == 111 && p[1] == 112 && p[2] == 99 && p[3] == 46 && p[4] == 116);
                assert(p[5] == 99 && p[6] == 112 && p[7] == 58 && p[8] == 47 && p[9] == 47);
                return false;
            }
            assert(u@.take(10) =~= opc_tcp_prefix());
            true
        },
    }
}

/// One connection's handshake.
pub struct Connection {
    state: ConnectionState,
    server_sizes: BufferSizes,
}

impl Connection {
    pub closed spec fn state(&self) -> ConnectionState {
        self.state
    }

    pub closed spec fn server_sizes(&self) -> BufferSizes {
        self.server_sizes
    }

    /// A new connection of a server with the given buffer sizes.
    pub fn new(server_sizes: BufferSizes) -> (r: Connection)
        ensures
            r.state() == ConnectionState::New,
            r.server_sizes() == server_sizes,
    {
        Connection { state: ConnectionState::New, server_sizes }
    }

    pub fn current_state(&self) -> (r: ConnectionState)
        ensures
            r == self.state(),
    {
        self.state
    }

    /// Advances the handshake by one inbound message and returns the reply to send,
    /// if any. Only Hello is taken before the channel opens, then only an
    /// OpenSecureChannel chunk; anything else is `BadTcpMessageTypeInvalid` and the
    /// connection goes to Closing.
    pub fn on_message(&mut self, m: &Message) -> (r: Result<Option<Message>, StatusCode>)
        ensures
            final(self).server_sizes() == old(self).server_sizes(),
            ({
                let (next, out) = transition(old(self).state(), m@, old(self).server_sizes());
                &&& final(self).state() == next
                &&& match (r, out) {
                    (Ok(Some(x)), Ok(Some(y))) => x@ == y,
                    (Ok(None), Ok(None)) => true,
                    (Err(e), Err(f)) => e == f,
                    _ => false,
                }
            }),
    {
        match (self.state, m) {
            (ConnectionState::New, Message::Hello(h)) => {
                if is_opc_tcp_url(&h.endpoint_url) {
                    let c = h.sizes;
                    let s = self.server_sizes;
                    let sizes = BufferSizes {
                        protocol_version: s.protocol_version,
                        receive_buffer_size: min_of(c.receive_buffer_size, s.receive_buffer_size),
                        send_buffer_size: min_of(c.send_buffer_size, s.send_buffer_size),
                        max_message_size: limit_of(c.max_message_size, s.max_message_size),
                        max_chunk_count: limit_of(c.max_chunk_count, s.max_chunk_count),
                    };
                    self.state = ConnectionState::Acknowledged;
                    Ok(Some(Message::Acknowledge(AcknowledgeMessage { sizes })))
                } else {
                    self.state = ConnectionState::Closing;
                    Err(StatusCode::BadTcpEndpointUrlInvalid)
                }
            },
            (ConnectionState::Acknowledged, Message::MessageChunk(c)) => {
                if c.kind == ChunkKind::OpenSecureChannel {
                    self.state = ConnectionState::SecureChannelOpen;
                    Ok(None)
                } else {
                    self.state = ConnectionState::Closing;
                    Err(StatusCode::BadTcpMessageTypeInvalid)
                }
            },
            (ConnectionState::SecureChannelOpen, Message::MessageChunk(_)) => Ok(None),
            (ConnectionState::SessionActive, Message::MessageChunk(_)) => Ok(None),
            _ => {
                self.state = ConnectionState::Closing;
                Err(StatusCode::BadTcpMessageTypeInvalid)
            },
        }
    }

    /// A session activated on the open channel makes the connection's session active.
    pub fn activate_session(&mut self) -> (r: bool)
        ensures
            r == (old(self).state() == ConnectionState::SecureChannelOpen),
            r ==> final(self).state() == ConnectionState::SessionActive,
            !r ==> final(self).state() == old(self).state(),
            final(self).server_sizes() == old(self).server_sizes(),
    {
        if self.state == ConnectionState::SecureChannelOpen {
            self.state = ConnectionState::SessionActive;
            true
        } else {
            false
        }
    }
}

// ---------------------------------------------------------------- chunk assembler

/// The channel, token, sequence number and request of a symmetric chunk (MSG, CLO).
#[derive(Debug, Clone, Copy, PartialEq, Eq, Structural)]
pub struct ChunkInfo {
    pub secure_channel_id: u32,
    pub token_id: u32,
    pub sequence_number: u32,
    pub request_id: u32,
}

/// Reads the headers of a symmetric chunk: after the 8-byte message header come the
/// channel id, the token id, the sequence number and the request id; the body follows.
pub fn read_chunk_info(data: &[u8]) -> (r: Result<ChunkInfo, StatusCode>)
    ensures
        data@.len() < 24 ==> r == Err::<ChunkInfo, StatusCode>(StatusCode::BadDecodingError),
        data@.len() >= 24 ==> r == Ok::<ChunkInfo, StatusCode>(
            ChunkInfo {
                secure_channel_id: u32_at(data@, 8),
                token_id: u32_at(data@, 12),
                sequence_number: u32_at(data@, 16),
                request_id: u32_at(data@, 20),
            },
        ),
{
    if data.len() < 24 {
        return Err(StatusCode::BadDecodingError);
    }
    let (secure_channel_id, _) = read_u32(data, 8).unwrap();
    let (token_id, _) = read_u32(data, 12).unwrap();
    let (sequence_number, _) = read_u32(data, 16).unwrap();
    let (request_id, _) = read_u32(data, 20).unwrap();
    Ok(ChunkInfo { secure_channel_id, token_id, sequence_number, request_id })
}

/// The sequence number that must follow `last`.
pub open spec fn next_sequence(last: u32) -> u32 {
    if last == u32::MAX {
        0
    } else {
        (last + 1) as u32
    }
}

/// Reassembles the chunks of service requests on one secure channel.
pub struct ChunkAssembler {
    secure_channel_id: u32,
    token_id: u32,
    max_request_size: usize,
    last_sequence_number: Option<u32>,
    body: Vec<u8>,
}

/// The rejections of a chunk, in the order they are checked.
pub open spec fn chunk_error(
    channel: u32,
    token: u32,
    last: Option<u32>,
    info: ChunkInfo,
    is_final: u8,
    pending: nat,
    body_len: nat,
    max: nat,
) -> Option<StatusCode> {
    if info.secure_channel_id != channel {
        Some(StatusCode::BadSecureChannelIdInvalid)
    } else if info.token_id != token {
        Some(StatusCode::BadSecurityTokenRejected)
    } else if last matches Some(l) && info.sequence_number != next_sequence(l) {
        Some(StatusCode::BadSequenceNumberInvalid)
    } else if is_final != FINAL && is_final != INTERMEDIATE && is_final != ABORT {
        Some(StatusCode::BadTcpMessageTypeInvalid)
    } else if is_final != ABORT && pending + body_len > max {
        Some(StatusCode::BadRequestTooLarge)
    } else {
        None
    }
}

pub open spec fn whole_of(r: Result<Option<Vec<u8>>, StatusCode>) -> Seq<u8> {
    match r {
        Ok(Some(v)) => v@,
        _ => Seq::empty(),
    }
}

impl ChunkAssembler {
    pub closed spec fn channel(&self) -> u32 {
        self.secure_channel_id
    }

    pub closed spec fn token(&self) -> u32 {
        self.token_id
    }

    pub closed spec fn max_size(&self) -> nat {
        self.max_request_size as nat
    }

    pub closed spec fn last_sequence(&self) -> Option<u32> {
        self.last_sequence_number
    }

    /// The body bytes of the request being reassembled.
    pub closed spec fn pending(&self) -> Seq<u8> {
        self.body@
    }

    /// An assembler for the channel and token, accepting requests of at most
    /// `max_request_size` body bytes.
    pub fn new(secure_channel_id: u32, token_id: u32, max_request_size: usize) -> (r:
        ChunkAssembler)
        ensures
            r.channel() == secure_channel_id,
            r.token() == token_id,
            r.max_size() == max_request_size,
            r.last_sequence() == None::<u32>,
            r.pending() == Seq::<u8>::empty(),
    {
        ChunkAssembler {
            secure_channel_id,
            token_id,
            max_request_size,
            last_sequence_number: None,
            body: Vec::new(),
        }
    }

    /// Takes one chunk. A final chunk returns the whole request body; an intermediate
    /// one is kept; an aborting one drops what was kept. A rejected chunk changes
    /// nothing; the connection is then closed.
    pub fn accept_chunk(&mut self, info: ChunkInfo, is_final: u8, body: &[u8]) -> (r: Result<
        Option<Vec<u8>>,
        StatusCode,
    >)
        ensures
            final(self).channel() == old(self).channel(),
            final(self).token() == old(self).token(),
            final(self).max_size() == old(self).max_size(),
            ({
                let err = chunk_error(
                    old(self).channel(),
                    old(self).token(),
                    old(self).last_sequence(),
                    info,
                    is_final,
                    old(self).pending().len(),
                    body@.len(),
                    old(self).max_size(),
                );
                match err {
                    Some(e) => {
                        &&& r == Err::<Option<Vec<u8>>, StatusCode>(e)
                        &&& final(self).pending() == old(self).pending()
                        &&& final(self).last_sequence() == old(self).last_sequence()
                    },
                    None => {
                        &&& final(self).last_sequence() == Some(info.sequence_number)
                        &&& is_final == ABORT ==> (r == Ok::<Option<Vec<u8>>, StatusCode>(None)
                            && final(self).pending() == Seq::<u8>::empty())
                        &&& is_final == INTERMEDIATE ==> (r == Ok::<Option<Vec<u8>>, StatusCode>(
                            None,
                        ) && final(self).pending() == old(self).pending() + body@)
                        &&& is_final == FINAL ==> ((r matches Ok(Some(v))) && final(self).pending()
                            == Seq::<u8>::empty() && whole_of(r) == old(self).pending() + body@)
                    },
                }
            }),
    {
        if info.secure_channel_id != self.secure_channel_id {
            return Err(StatusCode::BadSecureChannelIdInvalid);
        }
        if info.token_id != self.token_id {
            return Err(StatusCode::BadSecurityTokenRejected);
        }
        match self.last_sequence_number {
            Some(l) => {
                let expected = if l == u32::MAX {
                    0
                } else {
                    l + 1
                };
                if info.sequence_number != expected {
                    return Err(StatusCode::BadSequenceNumberInvalid);
                }
            },
            None => {},
        }
        if is_final != FINAL && is_final != INTERMEDIATE && is_final != ABORT {
            return Err(StatusCode::BadTcpMessageTypeInvalid);
        }
        if is_final != ABORT && (body.len() > self.max_request_size || self.body.len()
            > self.max_request_size - body.len()) {
            return Err(StatusCode::BadRequestTooLarge);
        }
        self.last_sequence_number = Some(info.sequence_number);
        if is_final == ABORT {
            self.body = Vec::new();
            return Ok(None);
        }
        let ghost start = self.body@;
        let mut i: usize = 0;
        while i < body.len()
            invariant
                i <= body@.len(),
                self.body@ == start + body@.take(i as int),
                start.len() + body@.len() <= self.max_request_size,
                self.secure_channel_id == old(self).secure_channel_id,
                self.token_id == old(self).token_id,
                self.max_request_size == old(self).max_request_size,
                self.last_sequence_number == Some(info.sequence_number),
            decreases body@.len() - i,
        {
            self.body.push(body[i]);
            i = i + 1;
            assert(self.body@ =~= start + body@.take(i as int));
        }
        assert(body@.take(i as int) =~= body@);
        if is_final == FINAL {
            let mut whole: Vec<u8> = Vec::new();
            std::mem::swap(&mut whole, &mut self.body);
            Ok(Some(whole))
        } else {
            Ok(None)
        }
    }
}

} // verus!
