//! NodeId, QualifiedName and LocalizedText with their UA Binary forms.
use vstd::prelude::*;
use crate::codec::{
    BinaryEncoder, Parsed, le_u16, parse_u8, parse_u16, write_u8, read_u8,
};
use crate::string::{UaString, ByteString, opt_bytes_encoding, copy_bytes};
use crate::status::StatusCode;

verus! {

pub proof fn lemma_skip_concat(a: Seq<u8>, b: Seq<u8>)
    ensures
        (a + b).skip(a.len() as int) == b,
{
    assert((a + b).skip(a.len() as int) =~= b);
}

pub proof fn lemma_skip_skip(s: Seq<u8>, a: int, b: int)
    requires
        0 <= a,
        0 <= b,
        a + b <= s.len(),
    ensures
        s.skip(a).skip(b) == s.skip(a + b),
{
    assert(s.skip(a).skip(b) =~= s.skip(a + b));
}

pub proof fn lemma_assoc(a: Seq<u8>, b: Seq<u8>, c: Seq<u8>)
    ensures
        (a + b) + c == a + (b + c),
{
    assert((a + b) + c =~= a + (b + c));
}

/// A GUID in its 16 wire bytes.
#[derive(Debug, Clone, PartialEq, Eq)]
pub struct Guid {
    pub bytes: Vec<u8>,
}

impl View for Guid {
    type V = Seq<u8>;

    open spec fn view(&self) -> Seq<u8> {
        self.bytes@
    }
}

impl BinaryEncoder for Guid {
    open spec fn encoding(v: Seq<u8>) -> Seq<u8> {
        v
    }

    open spec fn parse(s: Seq<u8>) -> Parsed<Seq<u8>> {
        if s.len() < 16 {
            Err(StatusCode::BadDecodingError)
        } else {
            Ok((s.take(16), 16))
        }
    }

    open spec fn in_limits(v: Seq<u8>) -> bool {
        v.len() == 16
    }

    proof fn lemma_round_trip(v: Seq<u8>, rest: Seq<u8>) {
        assert((v + rest).take(16) =~= v);
    }

    proof fn lemma_parse_len(s: Seq<u8>) {
    }

    fn byte_len(&self) -> usize {
        self.bytes.len()
    }

    fn encode(&self, buf: &mut Vec<u8>) -> Result<usize, StatusCode> {
        if self.bytes.len() != 16 {
            return Err(StatusCode::BadEncodingLimitsExceeded);
        }
        let ghost start = buf@;
        let mut i: usize = 0;
        while i < 16
            invariant
                i <= 16,
                self.bytes@.len() == 16,
                buf@ == start + self.bytes@.take(i as int),
            decreases 16 - i,
        {
            buf.push(self.bytes[i]);
            i = i + 1;
            assert(buf@ =~= start + self.bytes@.take(i as int));
        }
        assert(self.bytes@.take(16) =~= self.bytes@);
        Ok(16)
    }

    fn decode(data: &[u8], pos: usize) -> Result<(Guid, usize), StatusCode> {
        if data.len() - pos < 16 {
            Err(StatusCode::BadDecodingError)
        } else {
            let bytes = copy_bytes(data, pos, pos + 16);
            assert(bytes@ =~= data@.skip(pos as int).take(16));
            Ok((Guid { bytes }, pos + 16))
        }
    }
}

/// The identifier part of a NodeId.
#[derive(Debug, Clone, PartialEq, Eq)]
pub enum Identifier {
    Numeric(u32),
    String(UaString),
    Guid(Guid),
    ByteString(ByteString),
}

pub enum IdentifierView {
    Numeric(u32),
    String(Option<Seq<u8>>),
    Guid(Seq<u8>),
    ByteString(Option<Seq<u8>>),
}

impl View for Identifier {
    type V = IdentifierView;

    open spec fn view(&self) -> IdentifierView {
        match self {
            Identifier::Numeric(i) => IdentifierView::Numeric(*i),
            Identifier::String(s) => IdentifierView::String(s@),
            Identifier::Guid(g) => IdentifierView::Guid(g@),
            Identifier::ByteString(b) => IdentifierView::ByteString(b@),
        }
    }
}

/// Identifies a node: a namespace index and an identifier.
#[derive(Debug, Clone, PartialEq, Eq)]
pub struct NodeId {
    pub namespace: u16,
    pub identifier: Identifier,
}

pub struct NodeIdView {
    pub namespace: u16,
    pub identifier: IdentifierView,
}

impl View for NodeId {
    type V = NodeIdView;

    open spec fn view(&self) -> NodeIdView {
        NodeIdView { namespace: self.namespace, identifier: self.identifier@ }
    }
}

/// The compact forms: two bytes for namespace 0 and identifiers below 256, four bytes
/// for namespaces below 256 and identifiers below 65536.
pub open spec fn node_id_encoding(v: NodeIdView) -> Seq<u8> {
    match v.identifier {
        IdentifierView::Numeric(i) => if v.namespace == 0 && i <= 255 {
            seq![0u8, i as u8]
        } else if v.namespace <= 255 && i <= 65535 {
            seq![1u8, v.namespace as u8] + le_u16(i as u16)
        } else {
            seq![2u8] + le_u16(v.namespace) + <u32 as BinaryEncoder>::encoding(i)
        },
        IdentifierView::String(s) => seq![3u8] + le_u16(v.namespace) + opt_bytes_encoding(s),
        IdentifierView::Guid(g) => seq![4u8] + le_u16(v.namespace) + g,
        IdentifierView::ByteString(b) => seq![5u8] + le_u16(v.namespace) + opt_bytes_encoding(b),
    }
}

pub open spec fn with_ns(ns: u16, p: Parsed<IdentifierView>, used: nat) -> Parsed<NodeIdView> {
    match p {
        Err(e) => Err(e),
        Ok((id, n)) => Ok((NodeIdView { namespace: ns, identifier: id }, used + n)),
    }
}

/// The identifier that follows a namespace of two bytes, by discriminator.
pub open spec fn parse_tail(d: u8, s: Seq<u8>) -> Parsed<IdentifierView> {
    if d == 2 {
        match <u32 as BinaryEncoder>::parse(s) {
            Err(e) => Err(e),
            Ok((i, n)) => Ok((IdentifierView::Numeric(i), n)),
        }
    } else if d == 3 {
        match UaString::parse(s) {
            Err(e) => Err(e),
            Ok((x, n)) => Ok((IdentifierView::String(x), n)),
        }
    } else if d == 4 {
        match Guid::parse(s) {
            Err(e) => Err(e),
            Ok((x, n)) => Ok((IdentifierView::Guid(x), n)),
        }
    } else {
        match ByteString::parse(s) {
            Err(e) => Err(e),
            Ok((x, n)) => Ok((IdentifierView::ByteString(x), n)),
        }
    }
}

pub open spec fn parse_node_id(s: Seq<u8>) -> Parsed<NodeIdView> {
    match parse_u8(s) {
        Err(e) => Err(e),
        Ok((d, _)) => if d == 0 {
            match parse_u8(s.skip(1)) {
                Err(e) => Err(e),
                Ok((i, _)) => Ok(
                    (NodeIdView { namespace: 0, identifier: IdentifierView::Numeric(i as u32) }, 2),
                ),
            }
        } else if d == 1 {
            if s.len() < 4 {
                Err(StatusCode::BadDecodingError)
            } else {
                Ok(
                    (
                        NodeIdView {
                            namespace: s[1] as u16,
                            identifier: IdentifierView::Numeric(
                                crate::codec::u16_of_le(s[2], s[3]) as u32,
                            ),
                        },
                        4,
                    ),
                )
            }
        } else if 2 <= d <= 5 {
            match parse_u16(s.skip(1)) {
                Err(e) => Err(e),
                Ok((ns, _)) => with_ns(ns, parse_tail(d, s.skip(3)), 3),
            }
        } else {
            Err(StatusCode::BadTypeMismatch)
        },
    }
}

pub open spec fn node_id_in_limits(v: NodeIdView) -> bool {
    match v.identifier {
        IdentifierView::Numeric(_) => true,
        IdentifierView::String(s) => UaString::in_limits(s),
        IdentifierView::Guid(g) => Guid::in_limits(g),
        IdentifierView::ByteString(b) => ByteString::in_limits(b),
    }
}

impl NodeId {
    /// A numeric NodeId.
    pub fn new_numeric(namespace: u16, value: u32) -> (r: NodeId)
        ensures
            r@ == (NodeIdView { namespace, identifier: IdentifierView::Numeric(value) }),
    {
        NodeId { namespace, identifier: Identifier::Numeric(value) }
    }

    /// Whether two NodeIds name the same node.
    pub fn same(&self, other: &NodeId) -> (r: bool)
        ensures
            r == (self@ == other@),
    {
        if self.namespace != other.namespace {
            return false;
        }
        match (&self.identifier, &other.identifier) {
            (Identifier::Numeric(a), Identifier::Numeric(b)) => *a == *b,
            (Identifier::String(a), Identifier::String(b)) => opt_bytes_eq(&a.value, &b.value),
            (Identifier::Guid(a), Identifier::Guid(b)) => bytes_eq(&a.bytes, &b.bytes),
            (Identifier::ByteString(a), Identifier::ByteString(b)) => opt_bytes_eq(
                &a.value,
                &b.value,
            ),
            _ => false,
        }
    }
}

pub fn bytes_eq(a: &Vec<u8>, b: &Vec<u8>) -> (r: bool)
    ensures
        r == (a@ == b@),
{
    if a.len() != b.len() {
        return false;
    }
    let mut i: usize = 0;
    while i < a.len()
        invariant
            i <= a@.len() == b@.len(),
            a@.take(i as int) == b@.take(i as int),
        decreases a@.len() - i,
    {
        if a[i] != b[i] {
            assert(a@.take(i + 1)[i as int] != b@.take(i + 1)[i as int]);
            assert(a@.take(i + 1) != b@.take(i + 1));
            return false;
        }
        assert(a@.take(i + 1) =~= a@.take(i as int).push(a[i as int]));
        assert(b@.take(i + 1) =~= b@.take(i as int).push(b[i as int]));
        i = i + 1;
    }
    assert(a@.take(i as int) =~= a@);
    assert(b@.take(i as int) =~= b@);
    true
}

pub fn opt_bytes_eq(a: &Option<Vec<u8>>, b: &Option<Vec<u8>>) -> (r: bool)
    ensures
        r == (crate::string::opt_bytes_view(a) == crate::string::opt_bytes_view(b)),
{
    match (a, b) {
        (None, None) => true,
        (Some(x), Some(y)) => bytes_eq(x, y),
        _ => false,
    }
}

impl BinaryEncoder for NodeId {
    open spec fn encoding(v: NodeIdView) -> Seq<u8> {
        node_id_encoding(v)
    }

    open spec fn parse(s: Seq<u8>) -> Parsed<NodeIdView> {
        parse_node_id(s)
    }

    open spec fn in_limits(v: NodeIdView) -> bool {
        node_id_in_limits(v)
    }

    proof fn lemma_round_trip(v: NodeIdView, rest: Seq<u8>) {
        let e = node_id_encoding(v);
        let s = e + rest;
        assert(s[0] == e[0]);
        match v.identifier {
            IdentifierView::Numeric(i) => {
                if v.namespace == 0 && i <= 255 {
                    assert(s[1] == e[1]);
                    assert(s.skip(1)[0] == s[1]);
                    assert(((i as u8) as u32) == i);
                } else if v.namespace <= 255 && i <= 65535 {
                    assert(s[1] == e[1] && s[2] == e[2] && s[3] == e[3]);
                    crate::codec::lemma_u16_le(i as u16);
                    assert(((v.namespace as u8) as u16) == v.namespace);
                    assert(((i as u16) as u32) == i);
                } else {
                    assert(s.skip(1) =~= le_u16(v.namespace) + (le_u16(v.namespace).skip(2)
                        + s.skip(3)));
                    <u16 as BinaryEncoder>::lemma_round_trip(v.namespace, s.skip(3));
                    assert(s.skip(1) =~= le_u16(v.namespace) + s.skip(3));
                    assert(s.skip(3) =~= <u32 as BinaryEncoder>::encoding(i) + rest);
                    <u32 as BinaryEncoder>::lemma_round_trip(i, rest);
                }
            },
            IdentifierView::String(x) => {
                assert(s.skip(1) =~= le_u16(v.namespace) + s.skip(3));
                <u16 as BinaryEncoder>::lemma_round_trip(v.namespace, s.skip(3));
                assert(s.skip(3) =~= opt_bytes_encoding(x) + rest);
                UaString::lemma_round_trip(x, rest);
            },
            IdentifierView::Guid(x) => {
                assert(s.skip(1) =~= le_u16(v.namespace) + s.skip(3));
                <u16 as BinaryEncoder>::lemma_round_trip(v.namespace, s.skip(3));
                assert(s.skip(3) =~= x + rest);
                Guid::lemma_round_trip(x, rest);
            },
            IdentifierView::ByteString(x) => {
                assert(s.skip(1) =~= le_u16(v.namespace) + s.skip(3));
                <u16 as BinaryEncoder>::lemma_round_trip(v.namespace, s.skip(3));
                assert(s.skip(3) =~= opt_bytes_encoding(x) + rest);
                ByteString::lemma_round_trip(x, rest);
            },
        }
    }

    proof fn lemma_parse_len(s: Seq<u8>) {
        let d = s[0];
        if s.len() >= 3 && 2 <= d <= 5 {
            let t = s.skip(3);
            <u32 as BinaryEncoder>::lemma_parse_len(t);
            UaString::lemma_parse_len(t);
            Guid::lemma_parse_len(t);
            ByteString::lemma_parse_len(t);
        }
    }

    fn byte_len(&self) -> usize {
        match &self.identifier {
            Identifier::Numeric(i) => if self.namespace == 0 && *i <= 255 {
                2
            } else if self.namespace <= 255 && *i <= 65535 {
                4
            } else {
                7
            },
            Identifier::String(x) => 3 + x.byte_len(),
            Identifier::Guid(x) => 3 + x.byte_len(),
            Identifier::ByteString(x) => 3 + x.byte_len(),
        }
    }

    fn encode(&self, buf: &mut Vec<u8>) -> Result<usize, StatusCode> {
        let ns = self.namespace;
        match &self.identifier {
            Identifier::Numeric(i) => {
                let i = *i;
                if ns == 0 && i <= 255 {
                    write_u8(buf, 0);
                    write_u8(buf, i as u8);
                    assert(buf@ =~= old(buf)@ + node_id_encoding(self@));
                    Ok(2)
                } else if ns <= 255 && i <= 65535 {
                    write_u8(buf, 1);
                    write_u8(buf, ns as u8);
                    crate::codec::write_u16_le(buf, i as u16);
                    assert(buf@ =~= old(buf)@ + node_id_encoding(self@));
                    Ok(4)
                } else {
                    write_u8(buf, 2);
                    crate::codec::write_u16_le(buf, ns);
                    crate::codec::write_u32(buf, i);
                    assert(buf@ =~= old(buf)@ + node_id_encoding(self@));
                    Ok(7)
                }
            },
            Identifier::String(x) => {
                write_u8(buf, 3);
                crate::codec::write_u16_le(buf, ns);
                match x.encode(buf) {
                    Err(e) => Err(e),
                    Ok(n) => {
                        assert(buf@ =~= old(buf)@ + node_id_encoding(self@));
                        Ok(3 + n)
                    },
                }
            },
            Identifier::Guid(x) => {
                write_u8(buf, 4);
                crate::codec::write_u16_le(buf, ns);
                match x.encode(buf) {
                    Err(e) => Err(e),
                    Ok(n) => {
                        assert(buf@ =~= old(buf)@ + node_id_encoding(self@));
                        Ok(3 + n)
                    },
                }
            },
            Identifier::ByteString(x) => {
                write_u8(buf, 5);
                crate::codec::write_u16_le(buf, ns);
                match x.encode(buf) {
                    Err(e) => Err(e),
                    Ok(n) => {
                        assert(buf@ =~= old(buf)@ + node_id_encoding(self@));
                        Ok(3 + n)
                    },
                }
            },
        }
    }

    fn decode(data: &[u8], pos: usize) -> Result<(NodeId, usize), StatusCode> {
        let ghost s = data@.skip(pos as int);
        let (d, p1) = match read_u8(data, pos) {
            Ok(x) => x,
            Err(e) => return Err(e),
        };
        assert(s.skip(1) =~= data@.skip(p1 as int));
        if d == 0 {
            let (i, p2) = match read_u8(data, p1) {
                Ok(x) => x,
                Err(e) => return Err(e),
            };
            Ok((NodeId { namespace: 0, identifier: Identifier::Numeric(i as u32) }, p2))
        } else if d == 1 {
            if data.len() - pos < 4 {
                return Err(StatusCode::BadDecodingError);
            }
            let ns = data[pos + 1];
            let b2 = data[pos + 2];
            let b3 = data[pos + 3];
            let i = (b2 as u16) | ((b3 as u16) << 8u16);
            Ok((NodeId { namespace: ns as u16, identifier: Identifier::Numeric(i as u32) }, pos + 4))
        } else if 2 <= d && d <= 5 {
            let (ns, p2) = match <u16 as BinaryEncoder>::decode(data, p1) {
                Ok(x) => x,
                Err(e) => return Err(e),
            };
            assert(s.skip(3) =~= data@.skip(p2 as int));
            if d == 2 {
                match <u32 as BinaryEncoder>::decode(data, p2) {
                    Ok((i, p3)) => Ok((NodeId { namespace: ns, identifier: Identifier::Numeric(i) }, p3)),
                    Err(e) => Err(e),
                }
            } else if d == 3 {
                match UaString::decode(data, p2) {
                    Ok((x, p3)) => Ok((NodeId { namespace: ns, identifier: Identifier::String(x) }, p3)),
                    Err(e) => Err(e),
                }
            } else if d == 4 {
                match Guid::decode(data, p2) {
                    Ok((x, p3)) => Ok((NodeId { namespace: ns, identifier: Identifier::Guid(x) }, p3)),
                    Err(e) => Err(e),
                }
            } else {
                match ByteString::decode(data, p2) {
                    Ok((x, p3)) => Ok(
                        (NodeId { namespace: ns, identifier: Identifier::ByteString(x) }, p3),
                    ),
                    Err(e) => Err(e),
                }
            }
        } else {
            Err(StatusCode::BadTypeMismatch)
        }
    }
}

} // verus!
