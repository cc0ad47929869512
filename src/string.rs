//! Strings and byte strings: a signed 32-bit length, then the bytes; -1 is the null value.
use vstd::prelude::*;
use crate::codec::{BinaryEncoder, Parsed, encoded_as, le_u32, parse_u32, lemma_parse_u32_round_trip, write_u32, read_u32, MAX_STRING_LENGTH, MAX_BYTE_STRING_LENGTH};
use crate::status::StatusCode;
use vstd::string::{StringSliceAdditionalSpecFns, StrSliceExecFns};

verus! {

/// The view of a string or byte string: `None` is the null value.
pub open spec fn opt_bytes_view(v: &Option<Vec<u8>>) -> Option<Seq<u8>> {
    match v {
        Some(b) => Some(b@),
        None => None,
    }
}

pub open spec fn opt_bytes_encoding(v: Option<Seq<u8>>) -> Seq<u8> {
    match v {
        None => le_u32(0xffff_ffff),
        Some(b) => le_u32(b.len() as u32) + b,
    }
}

pub open spec fn opt_bytes_in_limits(v: Option<Seq<u8>>, max: nat) -> bool {
    match v {
        None => true,
        Some(b) => b.len() <= max,
    }
}

pub open spec fn parse_opt_bytes(s: Seq<u8>, max: nat) -> Parsed<Option<Seq<u8>>> {
    match parse_u32(s) {
        Err(e) => Err(e),
        Ok((x, _)) => {
            let len = x as i32;
            if len == -1 {
                Ok((None, 4))
            } else if len < -1 {
                Err(StatusCode::BadDecodingError)
            } else if len > max {
                Err(StatusCode::BadEncodingLimitsExceeded)
            } else if s.len() < 4 + len {
                Err(StatusCode::BadDecodingError)
            } else {
                Ok((Some(s.subrange(4, 4 + len)), (4 + len) as nat))
            }
        },
    }
}

pub proof fn lemma_opt_bytes_round_trip(v: Option<Seq<u8>>, max: nat, rest: Seq<u8>)
    requires
        opt_bytes_in_limits(v, max),
        max <= 0x7fff_ffff,
    ensures
        parse_opt_bytes(opt_bytes_encoding(v) + rest, max) == Ok::<
            (Option<Seq<u8>>, nat),
            StatusCode,
        >((v, opt_bytes_encoding(v).len())),
{
    match v {
        None => {
            lemma_parse_u32_round_trip(0xffff_ffff, rest);
            assert((0xffff_ffffu32 as i32) == -1) by (bit_vector);
        },
        Some(b) => {
            let len = b.len() as u32;
            assert(le_u32(len) + b + rest =~= le_u32(len) + (b + rest));
            lemma_parse_u32_round_trip(len, b + rest);
            assert(len < 0x8000_0000);
            assert(len < 0x8000_0000 ==> (len as i32) as int == len as int) by (bit_vector);
            assert((le_u32(len) + b + rest).subrange(4, 4 + b.len() as int) =~= b);
        },
    }
}

/// Appends a string or byte string; fails when it is longer than `max`.
pub fn write_opt_bytes(buf: &mut Vec<u8>, v: &Option<Vec<u8>>, max: usize) -> (r: Result<
    usize,
    StatusCode,
>)
    requires
        old(buf)@.len() + opt_bytes_encoding(opt_bytes_view(v)).len() <= usize::MAX,
    ensures
        encoded_as(
            r,
            old(buf)@,
            final(buf)@,
            opt_bytes_encoding(opt_bytes_view(v)),
            opt_bytes_in_limits(opt_bytes_view(v), max as nat),
        ),
{
    match v {
        None => {
            write_u32(buf, 0xffff_ffff);
            Ok(4)
        },
        Some(b) => {
            if b.len() > max {
                return Err(StatusCode::BadEncodingLimitsExceeded);
            }
            write_u32(buf, b.len() as u32);
            let ghost start = buf@;
            let mut i: usize = 0;
            while i < b.len()
                invariant
                    i <= b@.len(),
                    buf@ == start + b@.subrange(0, i as int),
                    start.len() + b@.len() <= usize::MAX,
                decreases b@.len() - i,
            {
                buf.push(b[i]);
                i = i + 1;
                assert(buf@ =~= start + b@.subrange(0, i as int));
            }
            assert(b@.subrange(0, b@.len() as int) =~= b@);
            assert(buf@ =~= old(buf)@ + opt_bytes_encoding(opt_bytes_view(v)));
            Ok(4 + b.len())
        },
    }
}

/// Copies `data[start..end]`.
pub fn copy_bytes(data: &[u8], start: usize, end: usize) -> (r: Vec<u8>)
    requires
        start <= end <= data@.len(),
    ensures
        r@ == data@.subrange(start as int, end as int),
{
    let mut out: Vec<u8> = Vec::new();
    let mut i: usize = start;
    while i < end
        invariant
            start <= i <= end <= data@.len(),
            out@ == data@.subrange(start as int, i as int),
        decreases end - i,
    {
        out.push(data[i]);
        i = i + 1;
        assert(out@ =~= data@.subrange(start as int, i as int));
    }
    out
}

/// Reads a string or byte string of at most `max` bytes.
pub fn read_opt_bytes(data: &[u8], pos: usize, max: usize) -> (r: Result<
    (Option<Vec<u8>>, usize),
    StatusCode,
>)
    requires
        pos <= data@.len(),
        max <= 0x7fff_ffff,
    ensures
        match (r, parse_opt_bytes(data@.skip(pos as int), max as nat)) {
            (Ok((v, end)), Ok((w, n))) => opt_bytes_view(&v) == w && end == pos + n,
            (Err(e), Err(f)) => e == f,
            _ => false,
        },
        r matches Ok((_, end)) ==> end <= data@.len(),
{
    let (x, p) = match read_u32(data, pos) {
        Ok(x) => x,
        Err(e) => return Err(e),
    };
    let len = x as i32;
    if len == -1 {
        Ok((None, p))
    } else if len < -1 {
        Err(StatusCode::BadDecodingError)
    } else if len as usize > max {
        Err(StatusCode::BadEncodingLimitsExceeded)
    } else if data.len() - p < len as usize {
        Err(StatusCode::BadDecodingError)
    } else {
        let end = p + len as usize;
        let bytes = copy_bytes(data, p, end);
        assert(bytes@ =~= data@.skip(pos as int).subrange(4, 4 + len));
        Ok((Some(bytes), end))
    }
}

/// A UA String: UTF-8 bytes, or the null value.
#[derive(Debug, Clone, PartialEq, Eq)]
pub struct UaString {
    pub value: Option<Vec<u8>>,
}

impl View for UaString {
    type V = Option<Seq<u8>>;

    open spec fn view(&self) -> Option<Seq<u8>> {
        opt_bytes_view(&self.value)
    }
}

impl UaString {
    /// The null string.
    pub fn null() -> (r: UaString)
        ensures
            r@ == None::<Seq<u8>>,
    {
        UaString { value: None }
    }

    /// The UTF-8 bytes of `s`.
    pub fn from_str(s: &str) -> (r: UaString)
        ensures
            r@ == Some(s.spec_bytes()),
    {
        UaString { value: Some(s.as_bytes_vec()) }
    }

    pub fn is_null(&self) -> (r: bool)
        ensures
            r == (self@ is None),
    {
        self.value.is_none()
    }

    /// Whether the string fits `MAX_STRING_LENGTH`.
    pub fn within_limits(&self) -> (r: bool)
        ensures
            r == UaString::in_limits(self@),
    {
        match &self.value {
            None => true,
            Some(b) => b.len() <= MAX_STRING_LENGTH,
        }
    }
}

impl BinaryEncoder for UaString {
    open spec fn encoding(v: Option<Seq<u8>>) -> Seq<u8> {
        opt_bytes_encoding(v)
    }

    open spec fn parse(s: Seq<u8>) -> Parsed<Option<Seq<u8>>> {
        parse_opt_bytes(s, MAX_STRING_LENGTH as nat)
    }

    open spec fn in_limits(v: Option<Seq<u8>>) -> bool {
        opt_bytes_in_limits(v, MAX_STRING_LENGTH as nat)
    }

    proof fn lemma_round_trip(v: Option<Seq<u8>>, rest: Seq<u8>) {
        lemma_opt_bytes_round_trip(v, MAX_STRING_LENGTH as nat, rest);
    }

    proof fn lemma_parse_len(s: Seq<u8>) {
    }

    fn byte_len(&self) -> usize {
        match &self.value {
            None => 4,
            Some(b) => 4 + b.len(),
        }
    }

    fn encode(&self, buf: &mut Vec<u8>) -> Result<usize, StatusCode> {
        write_opt_bytes(buf, &self.value, MAX_STRING_LENGTH)
    }

    fn decode(data: &[u8], pos: usize) -> Result<(UaString, usize), StatusCode> {
        match read_opt_bytes(data, pos, MAX_STRING_LENGTH) {
            Ok((value, end)) => Ok((UaString { value }, end)),
            Err(e) => Err(e),
        }
    }
}

/// A ByteString: opaque bytes, or the null value.
#[derive(Debug, Clone, PartialEq, Eq)]
pub struct ByteString {
    pub value: Option<Vec<u8>>,
}

impl View for ByteString {
    type V = Option<Seq<u8>>;

    open spec fn view(&self) -> Option<Seq<u8>> {
        opt_bytes_view(&self.value)
    }
}

impl ByteString {
    /// The null byte string.
    pub fn null() -> (r: ByteString)
        ensures
            r@ == None::<Seq<u8>>,
    {
        ByteString { value: None }
    }
}

impl BinaryEncoder for ByteString {
    open spec fn encoding(v: Option<Seq<u8>>) -> Seq<u8> {
        opt_bytes_encoding(v)
    }

    open spec fn parse(s: Seq<u8>) -> Parsed<Option<Seq<u8>>> {
        parse_opt_bytes(s, MAX_BYTE_STRING_LENGTH as nat)
    }

    open spec fn in_limits(v: Option<Seq<u8>>) -> bool {
        opt_bytes_in_limits(v, MAX_BYTE_STRING_LENGTH as nat)
    }

    proof fn lemma_round_trip(v: Option<Seq<u8>>, rest: Seq<u8>) {
        lemma_opt_bytes_round_trip(v, MAX_BYTE_STRING_LENGTH as nat, rest);
    }

    proof fn lemma_parse_len(s: Seq<u8>) {
    }

    fn byte_len(&self) -> usize {
        match &self.value {
            None => 4,
            Some(b) => 4 + b.len(),
        }
    }

    fn encode(&self, buf: &mut Vec<u8>) -> Result<usize, StatusCode> {
        write_opt_bytes(buf, &self.value, MAX_BYTE_STRING_LENGTH)
    }

    fn decode(data: &[u8], pos: usize) -> Result<(ByteString, usize), StatusCode> {
        match read_opt_bytes(data, pos, MAX_BYTE_STRING_LENGTH) {
            Ok((value, end)) => Ok((ByteString { value }, end)),
            Err(e) => Err(e),
        }
    }
}

} // verus!
