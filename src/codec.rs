//! UA Binary: little-endian integers, length-prefixed strings and arrays, and the
//! `BinaryEncoder` capability that every wire record implements.
use vstd::prelude::*;
use crate::status::StatusCode;

verus! {

/// Maximum number of elements in an array.
pub const MAX_ARRAY_LENGTH: usize = 1000;
/// Maximum size of a string in bytes.
pub const MAX_STRING_LENGTH: usize = 65536;
/// Maximum size of a byte string in bytes.
pub const MAX_BYTE_STRING_LENGTH: usize = 65536;
/// Maximum size of a certificate to send.
pub const MAX_CERTIFICATE_LENGTH: usize = 32768;

/// The outcome of a parse: the value and the number of bytes consumed.
pub type Parsed<V> = Result<(V, nat), StatusCode>;

/// An executable decode result agrees with a parse of the bytes from `pos` on.
pub open spec fn decoded_as<T: View>(
    r: Result<(T, usize), StatusCode>,
    p: Parsed<T::V>,
    pos: usize,
) -> bool {
    match (r, p) {
        (Ok((v, end)), Ok((w, n))) => v@ == w && end == pos + n,
        (Err(e), Err(f)) => e == f,
        _ => false,
    }
}

/// An executable encode result: `Ok` exactly within limits, having appended the encoding.
pub open spec fn encoded_as(
    r: Result<usize, StatusCode>,
    before: Seq<u8>,
    after: Seq<u8>,
    enc: Seq<u8>,
    in_limits: bool,
) -> bool {
    &&& (r is Ok <==> in_limits)
    &&& r matches Ok(n) ==> n == enc.len() && after == before + enc
    &&& r matches Err(e) ==> e == StatusCode::BadEncodingLimitsExceeded
}

/// A value with a binary wire form: `decode(encode(v)) = v` for every `v` within limits.
pub trait BinaryEncoder: Sized + View {
    /// The bytes that encode `v`.
    spec fn encoding(v: Self::V) -> Seq<u8>;

    /// Reads one value from the front of `s`.
    spec fn parse(s: Seq<u8>) -> Parsed<Self::V>;

    /// `v` respects the configured maxima of strings and arrays.
    spec fn in_limits(v: Self::V) -> bool;

    proof fn lemma_round_trip(v: Self::V, rest: Seq<u8>)
        requires
            Self::in_limits(v),
        ensures
            Self::parse(Self::encoding(v) + rest) == Ok::<(Self::V, nat), StatusCode>(
                (v, Self::encoding(v).len()),
            ),
    ;

    proof fn lemma_parse_len(s: Seq<u8>)
        ensures
            Self::parse(s) matches Ok((v, n)) ==> n <= s.len() && Self::in_limits(v),
    ;

    fn byte_len(&self) -> (r: usize)
        requires
            Self::encoding(self@).len() <= usize::MAX,
        ensures
            r == Self::encoding(self@).len(),
    ;

    fn encode(&self, buf: &mut Vec<u8>) -> (r: Result<usize, StatusCode>)
        requires
            old(buf)@.len() + Self::encoding(self@).len() <= usize::MAX,
        ensures
            encoded_as(r, old(buf)@, final(buf)@, Self::encoding(self@), Self::in_limits(self@)),
    ;

    fn decode(data: &[u8], pos: usize) -> (r: Result<(Self, usize), StatusCode>)
        requires
            pos <= data@.len(),
        ensures
            decoded_as(r, Self::parse(data@.skip(pos as int)), pos),
            r matches Ok((_, end)) ==> end <= data@.len(),
    ;
}

/// For every wire record and every value within limits, decoding its encoding, whatever
/// follows it, gives the value back and consumes exactly the encoding (whose length
/// `byte_len` reports).
pub proof fn law_round_trip<T: BinaryEncoder>(v: T::V, rest: Seq<u8>)
    requires
        T::in_limits(v),
    ensures
        T::parse(T::encoding(v) + rest) == Ok::<(T::V, nat), StatusCode>(
            (v, T::encoding(v).len()),
        ),
{
    T::lemma_round_trip(v, rest);
}

// ---------------------------------------------------------------- integers

pub open spec fn le_u16(v: u16) -> Seq<u8> {
    seq![(v & 0xff) as u8, ((v >> 8u16) & 0xff) as u8]
}

pub open spec fn u16_of_le(b0: u8, b1: u8) -> u16 {
    (b0 as u16) | ((b1 as u16) << 8u16)
}

pub open spec fn le_u32(v: u32) -> Seq<u8> {
    seq![
        (v & 0xff) as u8,
        ((v >> 8u32) & 0xff) as u8,
        ((v >> 16u32) & 0xff) as u8,
        ((v >> 24u32) & 0xff) as u8,
    ]
}

pub open spec fn u32_of_le(b0: u8, b1: u8, b2: u8, b3: u8) -> u32 {
    (b0 as u32) | ((b1 as u32) << 8u32) | ((b2 as u32) << 16u32) | ((b3 as u32) << 24u32)
}

pub open spec fn le_u64(v: u64) -> Seq<u8> {
    le_u32(v as u32) + le_u32((v >> 32u64) as u32)
}

pub open spec fn u64_of_halves(lo: u32, hi: u32) -> u64 {
    (lo as u64) | ((hi as u64) << 32u64)
}

pub open spec fn parse_u8(s: Seq<u8>) -> Parsed<u8> {
    if s.len() < 1 {
        Err(StatusCode::BadDecodingError)
    } else {
        Ok((s[0], 1))
    }
}

pub open spec fn parse_u16(s: Seq<u8>) -> Parsed<u16> {
    if s.len() < 2 {
        Err(StatusCode::BadDecodingError)
    } else {
        Ok((u16_of_le(s[0], s[1]), 2))
    }
}

pub open spec fn parse_u32(s: Seq<u8>) -> Parsed<u32> {
    if s.len() < 4 {
        Err(StatusCode::BadDecodingError)
    } else {
        Ok((u32_of_le(s[0], s[1], s[2], s[3]), 4))
    }
}

pub open spec fn parse_u64(s: Seq<u8>) -> Parsed<u64> {
    if s.len() < 8 {
        Err(StatusCode::BadDecodingError)
    } else {
        Ok(
            (
                u64_of_halves(u32_of_le(s[0], s[1], s[2], s[3]), u32_of_le(s[4], s[5], s[6], s[7])),
                8,
            ),
        )
    }
}

pub proof fn lemma_u16_le(v: u16)
    ensures
        u16_of_le((v & 0xff) as u8, ((v >> 8u16) & 0xff) as u8) == v,
{
    assert(((((v & 0xff) as u8) as u16) | (((((v >> 8u16) & 0xff) as u8) as u16) << 8u16)) == v)
        by (bit_vector);
}

pub proof fn lemma_u32_le(v: u32)
    ensures
        u32_of_le(
            (v & 0xff) as u8,
            ((v >> 8u32) & 0xff) as u8,
            ((v >> 16u32) & 0xff) as u8,
            ((v >> 24u32) & 0xff) as u8,
        ) == v,
{
    assert(((((v & 0xff) as u8) as u32) | (((((v >> 8u32) & 0xff) as u8) as u32) << 8u32) | (((((v
        >> 16u32) & 0xff) as u8) as u32) << 16u32) | (((((v >> 24u32) & 0xff) as u8) as u32)
        << 24u32)) == v) by (bit_vector);
}

pub proof fn lemma_u64_halves(v: u64)
    ensures
        u64_of_halves(v as u32, (v >> 32u64) as u32) == v,
{
    assert((((v as u32) as u64) | ((((v >> 32u64) as u32) as u64) << 32u64)) == v) by (bit_vector);
}

pub proof fn lemma_parse_u32_round_trip(v: u32, rest: Seq<u8>)
    ensures
        parse_u32(le_u32(v) + rest) == Ok::<(u32, nat), StatusCode>((v, 4)),
{
    lemma_u32_le(v);
    let s = le_u32(v) + rest;
    assert(s[0] == le_u32(v)[0] && s[1] == le_u32(v)[1] && s[2] == le_u32(v)[2] && s[3]
        == le_u32(v)[3]);
}

pub proof fn lemma_parse_u64_round_trip(v: u64, rest: Seq<u8>)
    ensures
        parse_u64(le_u64(v) + rest) == Ok::<(u64, nat), StatusCode>((v, 8)),
{
    lemma_u32_le(v as u32);
    lemma_u32_le((v >> 32u64) as u32);
    lemma_u64_halves(v);
    let s = le_u64(v) + rest;
    let e = le_u64(v);
    assert(s[0] == e[0] && s[1] == e[1] && s[2] == e[2] && s[3] == e[3]);
    assert(s[4] == e[4] && s[5] == e[5] && s[6] == e[6] && s[7] == e[7]);
}

pub fn write_u8(buf: &mut Vec<u8>, v: u8)
    ensures
        final(buf)@ == old(buf)@ + seq![v],
{
    buf.push(v);
    assert(buf@ =~= old(buf)@ + seq![v]);
}

pub fn write_u16_le(buf: &mut Vec<u8>, v: u16)
    ensures
        final(buf)@ == old(buf)@ + le_u16(v),
{
    buf.push((v & 0xff) as u8);
    buf.push(((v >> 8u16) & 0xff) as u8);
    assert(buf@ =~= old(buf)@ + le_u16(v));
}

pub fn write_u32(buf: &mut Vec<u8>, v: u32)
    ensures
        final(buf)@ == old(buf)@ + le_u32(v),
{
    buf.push((v & 0xff) as u8);
    buf.push(((v >> 8u32) & 0xff) as u8);
    buf.push(((v >> 16u32) & 0xff) as u8);
    buf.push(((v >> 24u32) & 0xff) as u8);
    assert(buf@ =~= old(buf)@ + le_u32(v));
}

pub fn write_u64(buf: &mut Vec<u8>, v: u64)
    ensures
        final(buf)@ == old(buf)@ + le_u64(v),
{
    write_u32(buf, v as u32);
    write_u32(buf, (v >> 32u64) as u32);
    assert(buf@ =~= old(buf)@ + le_u64(v));
}

pub fn read_u8(data: &[u8], pos: usize) -> (r: Result<(u8, usize), StatusCode>)
    requires
        pos <= data@.len(),
    ensures
        decoded_as(r, parse_u8(data@.skip(pos as int)), pos),
        r matches Ok((_, end)) ==> end <= data@.len(),
{
    if data.len() - pos < 1 {
        Err(StatusCode::BadDecodingError)
    } else {
        Ok((data[pos], pos + 1))
    }
}

pub fn read_u16(data: &[u8], pos: usize) -> (r: Result<(u16, usize), StatusCode>)
    requires
        pos <= data@.len(),
    ensures
        decoded_as(r, parse_u16(data@.skip(pos as int)), pos),
        r matches Ok((_, end)) ==> end <= data@.len(),
{
    if data.len() - pos < 2 {
        Err(StatusCode::BadDecodingError)
    } else {
        let b0 = data[pos];
        let b1 = data[pos + 1];
        Ok(((b0 as u16) | ((b1 as u16) << 8u16), pos + 2))
    }
}

pub fn read_u32(data: &[u8], pos: usize) -> (r: Result<(u32, usize), StatusCode>)
    requires
        pos <= data@.len(),
    ensures
        decoded_as(r, parse_u32(data@.skip(pos as int)), pos),
        r matches Ok((_, end)) ==> end <= data@.len(),
{
    if data.len() - pos < 4 {
        Err(StatusCode::BadDecodingError)
    } else {
        let b0 = data[pos];
        let b1 = data[pos + 1];
        let b2 = data[pos + 2];
        let b3 = data[pos + 3];
        Ok(
            (
                (b0 as u32) | ((b1 as u32) << 8u32) | ((b2 as u32) << 16u32) | ((b3 as u32)
                    << 24u32),
                pos + 4,
            ),
        )
    }
}

pub fn read_u64(data: &[u8], pos: usize) -> (r: Result<(u64, usize), StatusCode>)
    requires
        pos <= data@.len(),
    ensures
        decoded_as(r, parse_u64(data@.skip(pos as int)), pos),
        r matches Ok((_, end)) ==> end <= data@.len(),
{
    if data.len() - pos < 8 {
        Err(StatusCode::BadDecodingError)
    } else {
        let (lo, _) = match read_u32(data, pos) {
            Ok(x) => x,
            Err(e) => return Err(e),
        };
        let (hi, _) = match read_u32(data, pos + 4) {
            Ok(x) => x,
            Err(e) => return Err(e),
        };
        assert(data@.skip(pos + 4) =~= data@.skip(pos as int).skip(4));
        Ok(((lo as u64) | ((hi as u64) << 32u64), pos + 8))
    }
}


// ---------------------------------------------------------------- primitive records

impl BinaryEncoder for u8 {
    open spec fn encoding(v: u8) -> Seq<u8> {
        seq![v]
    }

    open spec fn parse(s: Seq<u8>) -> Parsed<u8> {
        parse_u8(s)
    }

    open spec fn in_limits(v: u8) -> bool {
        true
    }

    proof fn lemma_round_trip(v: u8, rest: Seq<u8>) {
        assert((seq![v] + rest)[0] == v);
    }

    proof fn lemma_parse_len(s: Seq<u8>) {
    }

    fn byte_len(&self) -> usize {
        1
    }

    fn encode(&self, buf: &mut Vec<u8>) -> Result<usize, StatusCode> {
        write_u8(buf, *self);
        Ok(1)
    }

    fn decode(data: &[u8], pos: usize) -> Result<(u8, usize), StatusCode> {
        read_u8(data, pos)
    }
}

/// A Boolean is one byte: 1 for true, 0 for false; any non-zero byte reads as true.
impl BinaryEncoder for bool {
    open spec fn encoding(v: bool) -> Seq<u8> {
        seq![if v { 1u8 } else { 0u8 }]
    }

    open spec fn parse(s: Seq<u8>) -> Parsed<bool> {
        match parse_u8(s) {
            Ok((b, n)) => Ok((b != 0, n)),
            Err(e) => Err(e),
        }
    }

    open spec fn in_limits(v: bool) -> bool {
        true
    }

    proof fn lemma_round_trip(v: bool, rest: Seq<u8>) {
        assert((Self::encoding(v) + rest)[0] == Self::encoding(v)[0]);
    }

    proof fn lemma_parse_len(s: Seq<u8>) {
    }

    fn byte_len(&self) -> usize {
        1
    }

    fn encode(&self, buf: &mut Vec<u8>) -> Result<usize, StatusCode> {
        write_u8(buf, if *self { 1u8 } else { 0u8 });
        Ok(1)
    }

    fn decode(data: &[u8], pos: usize) -> Result<(bool, usize), StatusCode> {
        match read_u8(data, pos) {
            Ok((b, end)) => Ok((b != 0, end)),
            Err(e) => Err(e),
        }
    }
}

impl BinaryEncoder for u16 {
    open spec fn encoding(v: u16) -> Seq<u8> {
        le_u16(v)
    }

    open spec fn parse(s: Seq<u8>) -> Parsed<u16> {
        parse_u16(s)
    }

    open spec fn in_limits(v: u16) -> bool {
        true
    }

    proof fn lemma_round_trip(v: u16, rest: Seq<u8>) {
        lemma_u16_le(v);
        let s = le_u16(v) + rest;
        assert(s[0] == le_u16(v)[0] && s[1] == le_u16(v)[1]);
    }

    proof fn lemma_parse_len(s: Seq<u8>) {
    }

    fn byte_len(&self) -> usize {
        2
    }

    fn encode(&self, buf: &mut Vec<u8>) -> Result<usize, StatusCode> {
        write_u16_le(buf, *self);
        Ok(2)
    }

    fn decode(data: &[u8], pos: usize) -> Result<(u16, usize), StatusCode> {
        read_u16(data, pos)
    }
}

impl BinaryEncoder for u32 {
    open spec fn encoding(v: u32) -> Seq<u8> {
        le_u32(v)
    }

    open spec fn parse(s: Seq<u8>) -> Parsed<u32> {
        parse_u32(s)
    }

    open spec fn in_limits(v: u32) -> bool {
        true
    }

    proof fn lemma_round_trip(v: u32, rest: Seq<u8>) {
        lemma_parse_u32_round_trip(v, rest);
    }

    proof fn lemma_parse_len(s: Seq<u8>) {
    }

    fn byte_len(&self) -> usize {
        4
    }

    fn encode(&self, buf: &mut Vec<u8>) -> Result<usize, StatusCode> {
        write_u32(buf, *self);
        Ok(4)
    }

    fn decode(data: &[u8], pos: usize) -> Result<(u32, usize), StatusCode> {
        read_u32(data, pos)
    }
}

impl BinaryEncoder for i32 {
    open spec fn encoding(v: i32) -> Seq<u8> {
        le_u32(v as u32)
    }

    open spec fn parse(s: Seq<u8>) -> Parsed<i32> {
        match parse_u32(s) {
            Ok((x, n)) => Ok((x as i32, n)),
            Err(e) => Err(e),
        }
    }

    open spec fn in_limits(v: i32) -> bool {
        true
    }

    proof fn lemma_round_trip(v: i32, rest: Seq<u8>) {
        lemma_parse_u32_round_trip(v as u32, rest);
        assert(((v as u32) as i32) == v) by (bit_vector);
    }

    proof fn lemma_parse_len(s: Seq<u8>) {
    }

    fn byte_len(&self) -> usize {
        4
    }

    fn encode(&self, buf: &mut Vec<u8>) -> Result<usize, StatusCode> {
        write_u32(buf, *self as u32);
        Ok(4)
    }

    fn decode(data: &[u8], pos: usize) -> Result<(i32, usize), StatusCode> {
        match read_u32(data, pos) {
            Ok((x, end)) => Ok((x as i32, end)),
            Err(e) => Err(e),
        }
    }
}

/// Also the wire form of a DateTime: 100-ns ticks since 1601-01-01 UTC.
impl BinaryEncoder for i64 {
    open spec fn encoding(v: i64) -> Seq<u8> {
        le_u64(v as u64)
    }

    open spec fn parse(s: Seq<u8>) -> Parsed<i64> {
        match parse_u64(s) {
            Ok((x, n)) => Ok((x as i64, n)),
            Err(e) => Err(e),
        }
    }

    open spec fn in_limits(v: i64) -> bool {
        true
    }

    proof fn lemma_round_trip(v: i64, rest: Seq<u8>) {
        lemma_parse_u64_round_trip(v as u64, rest);
        assert(((v as u64) as i64) == v) by (bit_vector);
    }

    proof fn lemma_parse_len(s: Seq<u8>) {
    }

    fn byte_len(&self) -> usize {
        8
    }

    fn encode(&self, buf: &mut Vec<u8>) -> Result<usize, StatusCode> {
        write_u64(buf, *self as u64);
        Ok(8)
    }

    fn decode(data: &[u8], pos: usize) -> Result<(i64, usize), StatusCode> {
        match read_u64(data, pos) {
            Ok((x, end)) => Ok((x as i64, end)),
            Err(e) => Err(e),
        }
    }
}

/// A Double travels as the 8 bytes of its IEEE-754 bit pattern; the library holds the bits.
impl BinaryEncoder for u64 {
    open spec fn encoding(v: u64) -> Seq<u8> {
        le_u64(v)
    }

    open spec fn parse(s: Seq<u8>) -> Parsed<u64> {
        parse_u64(s)
    }

    open spec fn in_limits(v: u64) -> bool {
        true
    }

    proof fn lemma_round_trip(v: u64, rest: Seq<u8>) {
        lemma_parse_u64_round_trip(v, rest);
    }

    proof fn lemma_parse_len(s: Seq<u8>) {
    }

    fn byte_len(&self) -> usize {
        8
    }

    fn encode(&self, buf: &mut Vec<u8>) -> Result<usize, StatusCode> {
        write_u64(buf, *self);
        Ok(8)
    }

    fn decode(data: &[u8], pos: usize) -> Result<(u64, usize), StatusCode> {
        read_u64(data, pos)
    }
}

} // verus!
