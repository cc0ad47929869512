//! Variant and DataValue: the values that attributes hold.
use vstd::prelude::*;
use crate::basic::{QualifiedName, QualifiedNameView, LocalizedText, LocalizedTextView};
use crate::node_id::{NodeId, NodeIdView, Identifier, Guid};
use crate::string::{UaString, ByteString};
use crate::status::StatusCode;

verus! {

/// One element of an array value.
#[derive(Debug, Clone, PartialEq, Eq)]
pub enum ArrayItem {
    Boolean(bool),
    Byte(u8),
    Int32(i32),
    UInt32(u32),
    Double(u64),
    String(UaString),
    DateTime(i64),
}

/// A tagged value of one of the UA built-in types. A Double is held as its
/// IEEE-754 bit pattern.
#[derive(Debug, Clone, PartialEq, Eq)]
pub enum Variant {
    Empty,
    Boolean(bool),
    Byte(u8),
    Int32(i32),
    UInt32(u32),
    Double(u64),
    String(UaString),
    DateTime(i64),
    NodeId(NodeId),
    QualifiedName(QualifiedName),
    LocalizedText(LocalizedText),
    StatusCode(StatusCode),
    Array(Vec<ArrayItem>),
}

pub enum VariantView {
    Empty,
    Boolean(bool),
    Byte(u8),
    Int32(i32),
    UInt32(u32),
    Double(u64),
    String(Option<Seq<u8>>),
    DateTime(i64),
    NodeId(NodeIdView),
    QualifiedName(QualifiedNameView),
    LocalizedText(LocalizedTextView),
    StatusCode(StatusCode),
    Array(Seq<ArrayItem>),
}

impl View for Variant {
    type V = VariantView;

    open spec fn view(&self) -> VariantView {
        match self {
            Variant::Empty => VariantView::Empty,
            Variant::Boolean(b) => VariantView::Boolean(*b),
            Variant::Byte(b) => VariantView::Byte(*b),
            Variant::Int32(i) => VariantView::Int32(*i),
            Variant::UInt32(i) => VariantView::UInt32(*i),
            Variant::Double(d) => VariantView::Double(*d),
            Variant::String(s) => VariantView::String(s@),
            Variant::DateTime(t) => VariantView::DateTime(*t),
            Variant::NodeId(n) => VariantView::NodeId(n@),
            Variant::QualifiedName(q) => VariantView::QualifiedName(q@),
            Variant::LocalizedText(l) => VariantView::LocalizedText(l@),
            Variant::StatusCode(c) => VariantView::StatusCode(*c),
            Variant::Array(a) => VariantView::Array(a@),
        }
    }
}

/// A Variant with its status and timestamps (100-ns ticks since 1601).
#[derive(Debug, Clone, PartialEq, Eq)]
pub struct DataValue {
    pub value: Option<Variant>,
    pub status: Option<StatusCode>,
    pub server_timestamp: Option<i64>,
    pub server_picoseconds: Option<u16>,
    pub source_timestamp: Option<i64>,
    pub source_picoseconds: Option<u16>,
}

pub struct DataValueView {
    pub value: Option<VariantView>,
    pub status: Option<StatusCode>,
    pub server_timestamp: Option<i64>,
    pub server_picoseconds: Option<u16>,
    pub source_timestamp: Option<i64>,
    pub source_picoseconds: Option<u16>,
}

impl View for DataValue {
    type V = DataValueView;

    open spec fn view(&self) -> DataValueView {
        DataValueView {
            value: match &self.value {
                Some(v) => Some(v@),
                None => None,
            },
            status: self.status,
            server_timestamp: self.server_timestamp,
            server_picoseconds: self.server_picoseconds,
            source_timestamp: self.source_timestamp,
            source_picoseconds: self.source_picoseconds,
        }
    }
}

impl DataValue {
    /// `value`, with status Good, both timestamps `now` and no picoseconds.
    pub fn new_at(value: Variant, now: i64) -> (r: DataValue)
        ensures
            r@ == good_value_at(value@, now),
    {
        DataValue {
            value: Some(value),
            status: Some(StatusCode::Good),
            server_timestamp: Some(now),
            server_picoseconds: Some(0),
            source_timestamp: Some(now),
            source_picoseconds: Some(0),
        }
    }
}

pub open spec fn good_value_at(v: VariantView, now: i64) -> DataValueView {
    DataValueView {
        value: Some(v),
        status: Some(StatusCode::Good),
        server_timestamp: Some(now),
        server_picoseconds: Some(0),
        source_timestamp: Some(now),
        source_picoseconds: Some(0),
    }
}

/// A copy of the bytes of a string.
pub fn copy_string(s: &UaString) -> (r: UaString)
    ensures
        r@ == s@,
{
    match &s.value {
        None => UaString::null(),
        Some(b) => UaString { value: Some(vstd::slice::slice_to_vec(b.as_slice())) },
    }
}

impl NodeId {
    /// A copy of this NodeId.
    pub fn duplicate(&self) -> (r: NodeId)
        ensures
            r@ == self@,
    {
        let identifier = match &self.identifier {
            Identifier::Numeric(i) => Identifier::Numeric(*i),
            Identifier::String(s) => Identifier::String(copy_string(s)),
            Identifier::Guid(g) => Identifier::Guid(
                Guid { bytes: vstd::slice::slice_to_vec(g.bytes.as_slice()) },
            ),
            Identifier::ByteString(b) => Identifier::ByteString(
                match &b.value {
                    None => ByteString::null(),
                    Some(x) => ByteString { value: Some(vstd::slice::slice_to_vec(x.as_slice())) },
                },
            ),
        };
        assert(identifier@ == self.identifier@);
        NodeId { namespace: self.namespace, identifier }
    }
}

} // verus!
