//! Service request records: RequestHeader, ReadValueId, ReadRequest, and the content
//! filter records with their ExtensionObject operands.
use vstd::prelude::*;
use crate::array::{
    array_encoding, array_in_limits, parse_array, opt_vec_view, lemma_array_round_trip,
    lemma_array_parse_len, byte_len_array, write_array, read_array,
};
use crate::basic::{QualifiedName, QualifiedNameView};
use crate::codec::{
    BinaryEncoder, Parsed, le_u32, parse_u8, parse_u32, lemma_parse_u32_round_trip, write_u8,
    write_u32, read_u8, read_u32,
};
use crate::node_id::{NodeId, NodeIdView, lemma_skip_concat, lemma_assoc, lemma_skip_skip};
use crate::string::{UaString, ByteString};
use crate::status::StatusCode;

verus! {


/// Which timestamps a Read returns.
#[derive(Debug, Clone, Copy, PartialEq, Eq, Structural)]
pub enum TimestampsToReturn {
    Source,
    Server,
    Both,
    Neither,
    Invalid,
}

impl View for TimestampsToReturn {
    type V = TimestampsToReturn;

    open spec fn view(&self) -> TimestampsToReturn {
        *self
    }
}

/// The wire value of each TimestampsToReturn.
pub open spec fn timestamps_to_return_value(v: TimestampsToReturn) -> i32 {
    match v {
        TimestampsToReturn::Source => 0,
        TimestampsToReturn::Server => 1,
        TimestampsToReturn::Both => 2,
        TimestampsToReturn::Neither => 3,
        TimestampsToReturn::Invalid => 4,
    }
}

pub open spec fn timestamps_to_return_of(x: i32) -> Option<TimestampsToReturn> {
    if x == 0 {
        Some(TimestampsToReturn::Source)
    } else if x == 1 {
        Some(TimestampsToReturn::Server)
    } else if x == 2 {
        Some(TimestampsToReturn::Both)
    } else if x == 3 {
        Some(TimestampsToReturn::Neither)
    } else if x == 4 {
        Some(TimestampsToReturn::Invalid)
    } else {
        None
    }
}

impl BinaryEncoder for TimestampsToReturn {
    open spec fn encoding(v: TimestampsToReturn) -> Seq<u8> {
        le_u32(timestamps_to_return_value(v) as u32)
    }

    open spec fn parse(s: Seq<u8>) -> Parsed<TimestampsToReturn> {
        match parse_u32(s) {
            Err(e) => Err(e),
            Ok((x, n)) => match timestamps_to_return_of(x as i32) {
                Some(t) => Ok((t, n)),
                None => Err(StatusCode::BadDecodingError),
            },
        }
    }

    open spec fn in_limits(v: TimestampsToReturn) -> bool {
        true
    }

    proof fn lemma_round_trip(v: TimestampsToReturn, rest: Seq<u8>) {
        let x = timestamps_to_return_value(v);
        lemma_parse_u32_round_trip(x as u32, rest);
        assert(((x as u32) as i32) == x) by (bit_vector);
    }

    proof fn lemma_parse_len(s: Seq<u8>) {
    }

    fn byte_len(&self) -> usize {
        4
    }

    #[verifier::spinoff_prover]
    #[verifier::rlimit(100)]
    fn encode(&self, buf: &mut Vec<u8>) -> Result<usize, StatusCode> {
        let x: i32 = match self {
            TimestampsToReturn::Source => 0,
            TimestampsToReturn::Server => 1,
            TimestampsToReturn::Both => 2,
            TimestampsToReturn::Neither => 3,
            TimestampsToReturn::Invalid => 4,
        };
        write_u32(buf, x as u32);
        Ok(4)
    }

    #[verifier::spinoff_prover]
    #[verifier::rlimit(100)]
    fn decode(data: &[u8], pos: usize) -> Result<(TimestampsToReturn, usize), StatusCode> {
        let (x, end) = match read_u32(data, pos) {
            Ok(r) => r,
            Err(e) => return Err(e),
        };
        let v = match x as i32 {
            0 => TimestampsToReturn::Source,
            1 => TimestampsToReturn::Server,
            2 => TimestampsToReturn::Both,
            3 => TimestampsToReturn::Neither,
            4 => TimestampsToReturn::Invalid,
            _ => return Err(StatusCode::BadDecodingError),
        };
        Ok((v, end))
    }
}

/// The operator of a content filter element.
#[derive(Debug, Clone, Copy, PartialEq, Eq, Structural)]
pub enum FilterOperator {
    Equals,
    IsNull,
    GreaterThan,
    LessThan,
    GreaterThanOrEqual,
    LessThanOrEqual,
    Like,
    Not,
    Between,
    InList,
    And,
    Or,
    Cast,
    InView,
    OfType,
    RelatedTo,
    BitwiseAnd,
    BitwiseOr,
}

impl View for FilterOperator {
    type V = FilterOperator;

    open spec fn view(&self) -> FilterOperator {
        *self
    }
}

/// The wire value of each FilterOperator.
pub open spec fn filter_operator_value(v: FilterOperator) -> i32 {
    match v {
        FilterOperator::Equals => 0,
        FilterOperator::IsNull => 1,
        FilterOperator::GreaterThan => 2,
        FilterOperator::LessThan => 3,
        FilterOperator::GreaterThanOrEqual => 4,
        FilterOperator::LessThanOrEqual => 5,
        FilterOperator::Like => 6,
        FilterOperator::Not => 7,
        FilterOperator::Between => 8,
        FilterOperator::InList => 9,
        FilterOperator::And => 10,
        FilterOperator::Or => 11,
        FilterOperator::Cast => 12,
        FilterOperator::InView => 13,
        FilterOperator::OfType => 14,
        FilterOperator::RelatedTo => 15,
        FilterOperator::BitwiseAnd => 16,
        FilterOperator::BitwiseOr => 17,
    }
}

pub open spec fn filter_operator_of(x: i32) -> Option<FilterOperator> {
    if x == 0 {
        Some(FilterOperator::Equals)
    } else if x == 1 {
        Some(FilterOperator::IsNull)
    } else if x == 2 {
        Some(FilterOperator::GreaterThan)
    } else if x == 3 {
        Some(FilterOperator::LessThan)
    } else if x == 4 {
        Some(FilterOperator::GreaterThanOrEqual)
    } else if x == 5 {
        Some(FilterOperator::LessThanOrEqual)
    } else if x == 6 {
        Some(FilterOperator::Like)
    } else if x == 7 {
        Some(FilterOperator::Not)
    } else if x == 8 {
        Some(FilterOperator::Between)
    } else if x == 9 {
        Some(FilterOperator::InList)
    } else if x == 10 {
        Some(FilterOperator::And)
    } else if x == 11 {
        Some(FilterOperator::Or)
    } else if x == 12 {
        Some(FilterOperator::Cast)
    } else if x == 13 {
        Some(FilterOperator::InView)
    } else if x == 14 {
        Some(FilterOperator::OfType)
    } else if x == 15 {
        Some(FilterOperator::RelatedTo)
    } else if x == 16 {
        Some(FilterOperator::BitwiseAnd)
    } else if x == 17 {
        Some(FilterOperator::BitwiseOr)
    } else {
        None
    }
}

impl BinaryEncoder for FilterOperator {
    open spec fn encoding(v: FilterOperator) -> Seq<u8> {
        le_u32(filter_operator_value(v) as u32)
    }

    open spec fn parse(s: Seq<u8>) -> Parsed<FilterOperator> {
        match parse_u32(s) {
            Err(e) => Err(e),
            Ok((x, n)) => match filter_operator_of(x as i32) {
                Some(t) => Ok((t, n)),
                None => Err(StatusCode::BadDecodingError),
            },
        }
    }

    open spec fn in_limits(v: FilterOperator) -> bool {
        true
    }

    proof fn lemma_round_trip(v: FilterOperator, rest: Seq<u8>) {
        let x = filter_operator_value(v);
        lemma_parse_u32_round_trip(x as u32, rest);
        assert(((x as u32) as i32) == x) by (bit_vector);
    }

    proof fn lemma_parse_len(s: Seq<u8>) {
    }

    fn byte_len(&self) -> usize {
        4
    }

    #[verifier::spinoff_prover]
    #[verifier::rlimit(100)]
    fn encode(&self, buf: &mut Vec<u8>) -> Result<usize, StatusCode> {
        let x: i32 = match self {
            FilterOperator::Equals => 0,
            FilterOperator::IsNull => 1,
            FilterOperator::GreaterThan => 2,
            FilterOperator::LessThan => 3,
            FilterOperator::GreaterThanOrEqual => 4,
            FilterOperator::LessThanOrEqual => 5,
            FilterOperator::Like => 6,
            FilterOperator::Not => 7,
            FilterOperator::Between => 8,
            FilterOperator::InList => 9,
            FilterOperator::And => 10,
            FilterOperator::Or => 11,
            FilterOperator::Cast => 12,
            FilterOperator::InView => 13,
            FilterOperator::OfType => 14,
            FilterOperator::RelatedTo => 15,
            FilterOperator::BitwiseAnd => 16,
            FilterOperator::BitwiseOr => 17,
        };
        write_u32(buf, x as u32);
        Ok(4)
    }

    #[verifier::spinoff_prover]
    #[verifier::rlimit(100)]
    fn decode(data: &[u8], pos: usize) -> Result<(FilterOperator, usize), StatusCode> {
        let (x, end) = match read_u32(data, pos) {
            Ok(r) => r,
            Err(e) => return Err(e),
        };
        let v = match x as i32 {
            0 => FilterOperator::Equals,
            1 => FilterOperator::IsNull,
            2 => FilterOperator::GreaterThan,
            3 => FilterOperator::LessThan,
            4 => FilterOperator::GreaterThanOrEqual,
            5 => FilterOperator::LessThanOrEqual,
            6 => FilterOperator::Like,
            7 => FilterOperator::Not,
            8 => FilterOperator::Between,
            9 => FilterOperator::InList,
            10 => FilterOperator::And,
            11 => FilterOperator::Or,
            12 => FilterOperator::Cast,
            13 => FilterOperator::InView,
            14 => FilterOperator::OfType,
            15 => FilterOperator::RelatedTo,
            16 => FilterOperator::BitwiseAnd,
            17 => FilterOperator::BitwiseOr,
            _ => return Err(StatusCode::BadDecodingError),
        };
        Ok((v, end))
    }
}

/// The body of an ExtensionObject: none, binary, or XML.
#[derive(Debug, Clone, PartialEq, Eq)]
pub enum ExtensionObjectBody {
    Empty,
    ByteString(ByteString),
    XmlElement(UaString),
}

pub enum ExtensionObjectBodyView {
    Empty,
    ByteString(Option<Seq<u8>>),
    XmlElement(Option<Seq<u8>>),
}

impl View for ExtensionObjectBody {
    type V = ExtensionObjectBodyView;

    open spec fn view(&self) -> ExtensionObjectBodyView {
        match self {
            ExtensionObjectBody::Empty => ExtensionObjectBodyView::Empty,
            ExtensionObjectBody::ByteString(b) => ExtensionObjectBodyView::ByteString(b@),
            ExtensionObjectBody::XmlElement(x) => ExtensionObjectBodyView::XmlElement(x@),
        }
    }
}

impl BinaryEncoder for ExtensionObjectBody {
    open spec fn encoding(v: ExtensionObjectBodyView) -> Seq<u8> {
        match v {
            ExtensionObjectBodyView::Empty => seq![0u8],
            ExtensionObjectBodyView::ByteString(b) => seq![1u8] + ByteString::encoding(b),
            ExtensionObjectBodyView::XmlElement(x) => seq![2u8] + UaString::encoding(x),
        }
    }

    open spec fn parse(s: Seq<u8>) -> Parsed<ExtensionObjectBodyView> {
        match parse_u8(s) {
            Err(e) => Err(e),
            Ok((tag, _)) => if tag == 0 {
                Ok((ExtensionObjectBodyView::Empty, 1))
            } else if tag == 1 {
                match ByteString::parse(s.skip(1)) {
                    Err(e) => Err(e),
                    Ok((b, n)) => Ok((ExtensionObjectBodyView::ByteString(b), 1 + n)),
                }
            } else if tag == 2 {
                match UaString::parse(s.skip(1)) {
                    Err(e) => Err(e),
                    Ok((x, n)) => Ok((ExtensionObjectBodyView::XmlElement(x), 1 + n)),
                }
            } else {
                Err(StatusCode::BadDecodingError)
            },
        }
    }

    open spec fn in_limits(v: ExtensionObjectBodyView) -> bool {
        match v {
            ExtensionObjectBodyView::Empty => true,
            ExtensionObjectBodyView::ByteString(b) => ByteString::in_limits(b),
            ExtensionObjectBodyView::XmlElement(x) => UaString::in_limits(x),
        }
    }

    proof fn lemma_round_trip(v: ExtensionObjectBodyView, rest: Seq<u8>) {
        let s = Self::encoding(v) + rest;
        assert(s[0] == Self::encoding(v)[0]);
        match v {
            ExtensionObjectBodyView::Empty => {},
            ExtensionObjectBodyView::ByteString(b) => {
                assert(s.skip(1) =~= ByteString::encoding(b) + rest);
                ByteString::lemma_round_trip(b, rest);
            },
            ExtensionObjectBodyView::XmlElement(x) => {
                assert(s.skip(1) =~= UaString::encoding(x) + rest);
                UaString::lemma_round_trip(x, rest);
            },
        }
    }

    proof fn lemma_parse_len(s: Seq<u8>) {
        ByteString::lemma_parse_len(s.skip(1));
        UaString::lemma_parse_len(s.skip(1));
    }

    fn byte_len(&self) -> usize {
        match self {
            ExtensionObjectBody::Empty => 1,
            ExtensionObjectBody::ByteString(b) => 1 + b.byte_len(),
            ExtensionObjectBody::XmlElement(x) => 1 + x.byte_len(),
        }
    }

    #[verifier::spinoff_prover]
    #[verifier::rlimit(100)]
    fn encode(&self, buf: &mut Vec<u8>) -> Result<usize, StatusCode> {
        match self {
            ExtensionObjectBody::Empty => {
                write_u8(buf, 0);
                Ok(1)
            },
            ExtensionObjectBody::ByteString(b) => {
                write_u8(buf, 1);
                match b.encode(buf) {
                    Ok(n) => {
                        assert(buf@ =~= old(buf)@ + Self::encoding(self@));
                        Ok(1 + n)
                    },
                    Err(e) => Err(e),
                }
            },
            ExtensionObjectBody::XmlElement(x) => {
                write_u8(buf, 2);
                match x.encode(buf) {
                    Ok(n) => {
                        assert(buf@ =~= old(buf)@ + Self::encoding(self@));
                        Ok(1 + n)
                    },
                    Err(e) => Err(e),
                }
            },
        }
    }

    #[verifier::spinoff_prover]
    #[verifier::rlimit(100)]
    fn decode(data: &[u8], pos: usize) -> Result<(ExtensionObjectBody, usize), StatusCode> {
        let (tag, p) = match read_u8(data, pos) {
            Ok(x) => x,
            Err(e) => return Err(e),
        };
        assert(data@.skip(pos as int).skip(1) =~= data@.skip(p as int));
        if tag == 0 {
            Ok((ExtensionObjectBody::Empty, p))
        } else if tag == 1 {
            match ByteString::decode(data, p) {
                Ok((b, end)) => Ok((ExtensionObjectBody::ByteString(b), end)),
                Err(e) => Err(e),
            }
        } else if tag == 2 {
            match UaString::decode(data, p) {
                Ok((x, end)) => Ok((ExtensionObjectBody::XmlElement(x), end)),
                Err(e) => Err(e),
            }
        } else {
            Err(StatusCode::BadDecodingError)
        }
    }
}


/// A structure carried by the type that encodes it and its encoded body.
#[derive(Debug, Clone, PartialEq, Eq)]
pub struct ExtensionObject {
    pub node_id: NodeId,
    pub body: ExtensionObjectBody,
}

pub struct ExtensionObjectView {
    pub node_id: NodeIdView,
    pub body: ExtensionObjectBodyView,
}

impl View for ExtensionObject {
    type V = ExtensionObjectView;

    open spec fn view(&self) -> ExtensionObjectView {
        ExtensionObjectView {
            node_id: self.node_id@,
            body: self.body@,
        }
    }
}

impl BinaryEncoder for ExtensionObject {
    open spec fn encoding(v: ExtensionObjectView) -> Seq<u8> {
        <NodeId as BinaryEncoder>::encoding(v.node_id) + <ExtensionObjectBody as BinaryEncoder>::encoding(v.body)
    }

    open spec fn parse(s1: Seq<u8>) -> Parsed<ExtensionObjectView> {
        match <NodeId as BinaryEncoder>::parse(s1) {
            Err(e) => Err(e),
            Ok((node_id, n1)) => {
                let s2 = s1.skip(n1 as int);
                match <ExtensionObjectBody as BinaryEncoder>::parse(s2) {
                    Err(e) => Err(e),
                    Ok((body, n2)) => {
                        Ok((ExtensionObjectView { node_id, body }, n1 + n2))
                    },
                }
            },
        }
    }

    open spec fn in_limits(v: ExtensionObjectView) -> bool {
        <NodeId as BinaryEncoder>::in_limits(v.node_id) && <ExtensionObjectBody as BinaryEncoder>::in_limits(v.body)
    }

    proof fn lemma_round_trip(v: ExtensionObjectView, rest: Seq<u8>) {
        let e1 = <NodeId as BinaryEncoder>::encoding(v.node_id);
        let e2 = <ExtensionObjectBody as BinaryEncoder>::encoding(v.body);
        let t2 = rest;
        let t1 = e2 + t2;
        lemma_assoc(e1, e2, t2);
        <NodeId as BinaryEncoder>::lemma_round_trip(v.node_id, t1);
        lemma_skip_concat(e1, t1);
        <ExtensionObjectBody as BinaryEncoder>::lemma_round_trip(v.body, t2);
    }

    proof fn lemma_parse_len(s1: Seq<u8>) {
        <NodeId as BinaryEncoder>::lemma_parse_len(s1);
        if let Ok((_, n1)) = <NodeId as BinaryEncoder>::parse(s1) {
            let s2 = s1.skip(n1 as int);
            <ExtensionObjectBody as BinaryEncoder>::lemma_parse_len(s2);
        }
    }

    fn byte_len(&self) -> usize {
        self.node_id.byte_len() + self.body.byte_len()
    }

    #[verifier::spinoff_prover]
    #[verifier::rlimit(100)]
    fn encode(&self, buf: &mut Vec<u8>) -> Result<usize, StatusCode> {
        let n1 = match self.node_id.encode(buf) {
            Ok(n) => n,
            Err(e) => return Err(e),
        };
        let n2 = match self.body.encode(buf) {
            Ok(n) => n,
            Err(e) => return Err(e),
        };
        proof {
            let v = self@;
            let o = old(buf)@;
            let e1 = <NodeId as BinaryEncoder>::encoding(v.node_id);
            let e2 = <ExtensionObjectBody as BinaryEncoder>::encoding(v.body);
            lemma_assoc(o, e1, e2);
        }
        Ok(n1 + n2)
    }

    #[verifier::spinoff_prover]
    #[verifier::rlimit(100)]
    fn decode(data: &[u8], pos: usize) -> Result<(ExtensionObject, usize), StatusCode> {
        let (node_id, p1) = match <NodeId as BinaryEncoder>::decode(data, pos) {
            Ok(x) => x,
            Err(e) => return Err(e),
        };
        proof {
            lemma_skip_skip(data@, pos as int, p1 - pos);
        }
        let (body, p2) = match <ExtensionObjectBody as BinaryEncoder>::decode(data, p1) {
            Ok(x) => x,
            Err(e) => return Err(e),
        };
        Ok((ExtensionObject { node_id, body }, p2))
    }
}

/// One element of a content filter: an operator and its operands.
#[derive(Debug, Clone, PartialEq, Eq)]
pub struct ContentFilterElement {
    pub filter_operator: FilterOperator,
    pub filter_operands: Option<Vec<ExtensionObject>>,
}

pub struct ContentFilterElementView {
    pub filter_operator: FilterOperator,
    pub filter_operands: Option<Seq<ExtensionObjectView>>,
}

impl View for ContentFilterElement {
    type V = ContentFilterElementView;

    open spec fn view(&self) -> ContentFilterElementView {
        ContentFilterElementView {
            filter_operator: self.filter_operator,
            filter_operands: opt_vec_view(&self.filter_operands),
        }
    }
}

impl BinaryEncoder for ContentFilterElement {
    open spec fn encoding(v: ContentFilterElementView) -> Seq<u8> {
        <FilterOperator as BinaryEncoder>::encoding(v.filter_operator) + array_encoding::<ExtensionObject>(v.filter_operands)
    }

    open spec fn parse(s1: Seq<u8>) -> Parsed<ContentFilterElementView> {
        match <FilterOperator as BinaryEncoder>::parse(s1) {
            Err(e) => Err(e),
            Ok((filter_operator, n1)) => {
                let s2 = s1.skip(n1 as int);
                match parse_array::<ExtensionObject>(s2) {
                    Err(e) => Err(e),
                    Ok((filter_operands, n2)) => {
                        Ok((ContentFilterElementView { filter_operator, filter_operands }, n1 + n2))
                    },
                }
            },
        }
    }

    open spec fn in_limits(v: ContentFilterElementView) -> bool {
        <FilterOperator as BinaryEncoder>::in_limits(v.filter_operator) && array_in_limits::<ExtensionObject>(v.filter_operands)
    }

    proof fn lemma_round_trip(v: ContentFilterElementView, rest: Seq<u8>) {
        let e1 = <FilterOperator as BinaryEncoder>::encoding(v.filter_operator);
        let e2 = array_encoding::<ExtensionObject>(v.filter_operands);
        let t2 = rest;
        let t1 = e2 + t2;
        lemma_assoc(e1, e2, t2);
        <FilterOperator as BinaryEncoder>::lemma_round_trip(v.filter_operator, t1);
        lemma_skip_concat(e1, t1);
        lemma_array_round_trip::<ExtensionObject>(v.filter_operands, t2);
    }

    proof fn lemma_parse_len(s1: Seq<u8>) {
        <FilterOperator as BinaryEncoder>::lemma_parse_len(s1);
        if let Ok((_, n1)) = <FilterOperator as BinaryEncoder>::parse(s1) {
            let s2 = s1.skip(n1 as int);
            lemma_array_parse_len::<ExtensionObject>(s2);
        }
    }

    fn byte_len(&self) -> usize {
        self.filter_operator.byte_len() + byte_len_array(&self.filter_operands)
    }

    #[verifier::spinoff_prover]
    #[verifier::rlimit(100)]
    fn encode(&self, buf: &mut Vec<u8>) -> Result<usize, StatusCode> {
        let n1 = match self.filter_operator.encode(buf) {
            Ok(n) => n,
            Err(e) => return Err(e),
        };
        let n2 = match write_array(buf, &self.filter_operands) {
            Ok(n) => n,
            Err(e) => return Err(e),
        };
        proof {
            let v = self@;
            let o = old(buf)@;
            let e1 = <FilterOperator as BinaryEncoder>::encoding(v.filter_operator);
            let e2 = array_encoding::<ExtensionObject>(v.filter_operands);
            lemma_assoc(o, e1, e2);
        }
        Ok(n1 + n2)
    }

    #[verifier::spinoff_prover]
    #[verifier::rlimit(100)]
    fn decode(data: &[u8], pos: usize) -> Result<(ContentFilterElement, usize), StatusCode> {
        let (filter_operator, p1) = match <FilterOperator as BinaryEncoder>::decode(data, pos) {
            Ok(x) => x,
            Err(e) => return Err(e),
        };
        proof {
            lemma_skip_skip(data@, pos as int, p1 - pos);
        }
        let (filter_operands, p2) = match read_array::<ExtensionObject>(data, p1) {
            Ok(x) => x,
            Err(e) => return Err(e),
        };
        Ok((ContentFilterElement { filter_operator, filter_operands }, p2))
    }
}

/// A filter over events or nodes: its elements, the first the root.
#[derive(Debug, Clone, PartialEq, Eq)]
pub struct ContentFilter {
    pub elements: Option<Vec<ContentFilterElement>>,
}

pub struct ContentFilterView {
    pub elements: Option<Seq<ContentFilterElementView>>,
}

impl View for ContentFilter {
    type V = ContentFilterView;

    open spec fn view(&self) -> ContentFilterView {
        ContentFilterView {
            elements: opt_vec_view(&self.elements),
        }
    }
}

impl BinaryEncoder for ContentFilter {
    open spec fn encoding(v: ContentFilterView) -> Seq<u8> {
        array_encoding::<ContentFilterElement>(v.elements)
    }

    open spec fn parse(s1: Seq<u8>) -> Parsed<ContentFilterView> {
        match parse_array::<ContentFilterElement>(s1) {
            Err(e) => Err(e),
            Ok((elements, n1)) => {
                Ok((ContentFilterView { elements }, n1))
            },
        }
    }

    open spec fn in_limits(v: ContentFilterView) -> bool {
        array_in_limits::<ContentFilterElement>(v.elements)
    }

    proof fn lemma_round_trip(v: ContentFilterView, rest: Seq<u8>) {
        let e1 = array_encoding::<ContentFilterElement>(v.elements);
        let t1 = rest;
        lemma_array_round_trip::<ContentFilterElement>(v.elements, t1);
        
    }

    proof fn lemma_parse_len(s1: Seq<u8>) {
        lemma_array_parse_len::<ContentFilterElement>(s1);
    }

    fn byte_len(&self) -> usize {
        byte_len_array(&self.elements)
    }

    #[verifier::spinoff_prover]
    #[verifier::rlimit(100)]
    fn encode(&self, buf: &mut Vec<u8>) -> Result<usize, StatusCode> {
        let n1 = match write_array(buf, &self.elements) {
            Ok(n) => n,
            Err(e) => return Err(e),
        };
        proof {
            let v = self@;
            let o = old(buf)@;
            let e1 = array_encoding::<ContentFilterElement>(v.elements);
        }
        Ok(n1)
    }

    #[verifier::spinoff_prover]
    #[verifier::rlimit(100)]
    fn decode(data: &[u8], pos: usize) -> Result<(ContentFilter, usize), StatusCode> {
        let (elements, p1) = match read_array::<ContentFilterElement>(data, pos) {
            Ok(x) => x,
            Err(e) => return Err(e),
        };
        Ok((ContentFilter { elements }, p1))
    }
}

/// The header of every service request.
#[derive(Debug, Clone, PartialEq, Eq)]
pub struct RequestHeader {
    pub authentication_token: NodeId,
    pub timestamp: i64,
    pub request_handle: u32,
    pub return_diagnostics: u32,
    pub audit_entry_id: UaString,
    pub timeout_hint: u32,
    pub additional_header: ExtensionObject,
}

pub struct RequestHeaderView {
    pub authentication_token: NodeIdView,
    pub timestamp: i64,
    pub request_handle: u32,
    pub return_diagnostics: u32,
    pub audit_entry_id: Option<Seq<u8>>,
    pub timeout_hint: u32,
    pub additional_header: ExtensionObjectView,
}

impl View for RequestHeader {
    type V = RequestHeaderView;

    open spec fn view(&self) -> RequestHeaderView {
        RequestHeaderView {
            authentication_token: self.authentication_token@,
            timestamp: self.timestamp,
            request_handle: self.request_handle,
            return_diagnostics: self.return_diagnostics,
            audit_entry_id: self.audit_entry_id@,
            timeout_hint: self.timeout_hint,
            additional_header: self.additional_header@,
        }
    }
}

impl BinaryEncoder for RequestHeader {
    open spec fn encoding(v: RequestHeaderView) -> Seq<u8> {
        <NodeId as BinaryEncoder>::encoding(v.authentication_token) + <i64 as BinaryEncoder>::encoding(v.timestamp) + <u32 as BinaryEncoder>::encoding(v.request_handle) + <u32 as BinaryEncoder>::encoding(v.return_diagnostics) + <UaString as BinaryEncoder>::encoding(v.audit_entry_id) + <u32 as BinaryEncoder>::encoding(v.timeout_hint) + <ExtensionObject as BinaryEncoder>::encoding(v.additional_header)
    }

    open spec fn parse(s1: Seq<u8>) -> Parsed<RequestHeaderView> {
        match <NodeId as BinaryEncoder>::parse(s1) {
            Err(e) => Err(e),
            Ok((authentication_token, n1)) => {
                let s2 = s1.skip(n1 as int);
                match <i64 as BinaryEncoder>::parse(s2) {
                    Err(e) => Err(e),
                    Ok((timestamp, n2)) => {
                        let s3 = s2.skip(n2 as int);
                        match <u32 as BinaryEncoder>::parse(s3) {
                            Err(e) => Err(e),
                            Ok((request_handle, n3)) => {
                                let s4 = s3.skip(n3 as int);
                                match <u32 as BinaryEncoder>::parse(s4) {
                                    Err(e) => Err(e),
                                    Ok((return_diagnostics, n4)) => {
                                        let s5 = s4.skip(n4 as int);
                                        match <UaString as BinaryEncoder>::parse(s5) {
                                            Err(e) => Err(e),
                                            Ok((audit_entry_id, n5)) => {
                                                let s6 = s5.skip(n5 as int);
                                                match <u32 as BinaryEncoder>::parse(s6) {
                                                    Err(e) => Err(e),
                                                    Ok((timeout_hint, n6)) => {
                                                        let s7 = s6.skip(n6 as int);
                                                        match <ExtensionObject as BinaryEncoder>::parse(s7) {
                                                            Err(e) => Err(e),
                                                            Ok((additional_header, n7)) => {
                                                                Ok((RequestHeaderView { authentication_token, timestamp, request_handle, return_diagnostics, audit_entry_id, timeout_hint, additional_header }, n1 + n2 + n3 + n4 + n5 + n6 + n7))
                                                            },
                                                        }
                                                    },
                                                }
                                            },
                                        }
                                    },
                                }
                            },
                        }
                    },
                }
            },
        }
    }

    open spec fn in_limits(v: RequestHeaderView) -> bool {
        <NodeId as BinaryEncoder>::in_limits(v.authentication_token) && <i64 as BinaryEncoder>::in_limits(v.timestamp) && <u32 as BinaryEncoder>::in_limits(v.request_handle) && <u32 as BinaryEncoder>::in_limits(v.return_diagnostics) && <UaString as BinaryEncoder>::in_limits(v.audit_entry_id) && <u32 as BinaryEncoder>::in_limits(v.timeout_hint) && <ExtensionObject as BinaryEncoder>::in_limits(v.additional_header)
    }

    proof fn lemma_round_trip(v: RequestHeaderView, rest: Seq<u8>) {
        let e1 = <NodeId as BinaryEncoder>::encoding(v.authentication_token);
        let e2 = <i64 as BinaryEncoder>::encoding(v.timestamp);
        let e3 = <u32 as BinaryEncoder>::encoding(v.request_handle);
        let e4 = <u32 as BinaryEncoder>::encoding(v.return_diagnostics);
        let e5 = <UaString as BinaryEncoder>::encoding(v.audit_entry_id);
        let e6 = <u32 as BinaryEncoder>::encoding(v.timeout_hint);
        let e7 = <ExtensionObject as BinaryEncoder>::encoding(v.additional_header);
        let t7 = rest;
        let t6 = e7 + t7;
        let t5 = e6 + t6;
        let t4 = e5 + t5;
        let t3 = e4 + t4;
        let t2 = e3 + t3;
        let t1 = e2 + t2;
        lemma_assoc(e1 + e2 + e3 + e4 + e5 + e6, e7, t7);
        lemma_assoc(e1 + e2 + e3 + e4 + e5, e6, t6);
        lemma_assoc(e1 + e2 + e3 + e4, e5, t5);
        lemma_assoc(e1 + e2 + e3, e4, t4);
        lemma_assoc(e1 + e2, e3, t3);
        lemma_assoc(e1, e2, t2);
        <NodeId as BinaryEncoder>::lemma_round_trip(v.authentication_token, t1);
        lemma_skip_concat(e1, t1);
        <i64 as BinaryEncoder>::lemma_round_trip(v.timestamp, t2);
        lemma_skip_concat(e2, t2);
        <u32 as BinaryEncoder>::lemma_round_trip(v.request_handle, t3);
        lemma_skip_concat(e3, t3);
        <u32 as BinaryEncoder>::lemma_round_trip(v.return_diagnostics, t4);
        lemma_skip_concat(e4, t4);
        <UaString as BinaryEncoder>::lemma_round_trip(v.audit_entry_id, t5);
        lemma_skip_concat(e5, t5);
        <u32 as BinaryEncoder>::lemma_round_trip(v.timeout_hint, t6);
        lemma_skip_concat(e6, t6);
        <ExtensionObject as BinaryEncoder>::lemma_round_trip(v.additional_header, t7);
    }

    proof fn lemma_parse_len(s1: Seq<u8>) {
        <NodeId as BinaryEncoder>::lemma_parse_len(s1);
        if let Ok((_, n1)) = <NodeId as BinaryEncoder>::parse(s1) {
            let s2 = s1.skip(n1 as int);
            <i64 as BinaryEncoder>::lemma_parse_len(s2);
            if let Ok((_, n2)) = <i64 as BinaryEncoder>::parse(s2) {
                let s3 = s2.skip(n2 as int);
                <u32 as BinaryEncoder>::lemma_parse_len(s3);
                if let Ok((_, n3)) = <u32 as BinaryEncoder>::parse(s3) {
                    let s4 = s3.skip(n3 as int);
                    <u32 as BinaryEncoder>::lemma_parse_len(s4);
                    if let Ok((_, n4)) = <u32 as BinaryEncoder>::parse(s4) {
                        let s5 = s4.skip(n4 as int);
                        <UaString as BinaryEncoder>::lemma_parse_len(s5);
                        if let Ok((_, n5)) = <UaString as BinaryEncoder>::parse(s5) {
                            let s6 = s5.skip(n5 as int);
                            <u32 as BinaryEncoder>::lemma_parse_len(s6);
                            if let Ok((_, n6)) = <u32 as BinaryEncoder>::parse(s6) {
                                let s7 = s6.skip(n6 as int);
                                <ExtensionObject as BinaryEncoder>::lemma_parse_len(s7);
                            }
                        }
                    }
                }
            }
        }
    }

    fn byte_len(&self) -> usize {
        self.authentication_token.byte_len() + self.timestamp.byte_len() + self.request_handle.byte_len() + self.return_diagnostics.byte_len() + self.audit_entry_id.byte_len() + self.timeout_hint.byte_len() + self.additional_header.byte_len()
    }

    #[verifier::spinoff_prover]
    #[verifier::rlimit(100)]
    fn encode(&self, buf: &mut Vec<u8>) -> Result<usize, StatusCode> {
        let n1 = match self.authentication_token.encode(buf) {
            Ok(n) => n,
            Err(e) => return Err(e),
        };
        let n2 = match self.timestamp.encode(buf) {
            Ok(n) => n,
            Err(e) => return Err(e),
        };
        let n3 = match self.request_handle.encode(buf) {
            Ok(n) => n,
            Err(e) => return Err(e),
        };
        let n4 = match self.return_diagnostics.encode(buf) {
            Ok(n) => n,
            Err(e) => return Err(e),
        };
        let n5 = match self.audit_entry_id.encode(buf) {
            Ok(n) => n,
            Err(e) => return Err(e),
        };
        let n6 = match self.timeout_hint.encode(buf) {
            Ok(n) => n,
            Err(e) => return Err(e),
        };
        let n7 = match self.additional_header.encode(buf) {
            Ok(n) => n,
            Err(e) => return Err(e),
        };
        proof {
            let v = self@;
            let o = old(buf)@;
            let e1 = <NodeId as BinaryEncoder>::encoding(v.authentication_token);
            let e2 = <i64 as BinaryEncoder>::encoding(v.timestamp);
            let e3 = <u32 as BinaryEncoder>::encoding(v.request_handle);
            let e4 = <u32 as BinaryEncoder>::encoding(v.return_diagnostics);
            let e5 = <UaString as BinaryEncoder>::encoding(v.audit_entry_id);
            let e6 = <u32 as BinaryEncoder>::encoding(v.timeout_hint);
            let e7 = <ExtensionObject as BinaryEncoder>::encoding(v.additional_header);
            lemma_assoc(o, e1, e2);
            lemma_assoc(o, e1 + e2, e3);
            lemma_assoc(o, e1 + e2 + e3, e4);
            lemma_assoc(o, e1 + e2 + e3 + e4, e5);
            lemma_assoc(o, e1 + e2 + e3 + e4 + e5, e6);
            lemma_assoc(o, e1 + e2 + e3 + e4 + e5 + e6, e7);
        }
        Ok(n1 + n2 + n3 + n4 + n5 + n6 + n7)
    }

    #[verifier::spinoff_prover]
    #[verifier::rlimit(100)]
    fn decode(data: &[u8], pos: usize) -> Result<(RequestHeader, usize), StatusCode> {
        let (authentication_token, p1) = match <NodeId as BinaryEncoder>::decode(data, pos) {
            Ok(x) => x,
            Err(e) => return Err(e),
        };
        proof {
            lemma_skip_skip(data@, pos as int, p1 - pos);
        }
        let (timestamp, p2) = match <i64 as BinaryEncoder>::decode(data, p1) {
            Ok(x) => x,
            Err(e) => return Err(e),
        };
        proof {
            lemma_skip_skip(data@, p1 as int, p2 - p1);
        }
        let (request_handle, p3) = match <u32 as BinaryEncoder>::decode(data, p2) {
            Ok(x) => x,
            Err(e) => return Err(e),
        };
        proof {
            lemma_skip_skip(data@, p2 as int, p3 - p2);
        }
        let (return_diagnostics, p4) = match <u32 as BinaryEncoder>::decode(data, p3) {
            Ok(x) => x,
            Err(e) => return Err(e),
        };
        proof {
            lemma_skip_skip(data@, p3 as int, p4 - p3);
        }
        let (audit_entry_id, p5) = match <UaString as BinaryEncoder>::decode(data, p4) {
            Ok(x) => x,
            Err(e) => return Err(e),
        };
        proof {
            lemma_skip_skip(data@, p4 as int, p5 - p4);
        }
        let (timeout_hint, p6) = match <u32 as BinaryEncoder>::decode(data, p5) {
            Ok(x) => x,
            Err(e) => return Err(e),
        };
        proof {
            lemma_skip_skip(data@, p5 as int, p6 - p5);
        }
        let (additional_header, p7) = match <ExtensionObject as BinaryEncoder>::decode(data, p6) {
            Ok(x) => x,
            Err(e) => return Err(e),
        };
        Ok((RequestHeader { authentication_token, timestamp, request_handle, return_diagnostics, audit_entry_id, timeout_hint, additional_header }, p7))
    }
}

/// One attribute of one node to read.
#[derive(Debug, Clone, PartialEq, Eq)]
pub struct ReadValueId {
    pub node_id: NodeId,
    pub attribute_id: u32,
    pub index_range: UaString,
    pub data_encoding: QualifiedName,
}

pub struct ReadValueIdView {
    pub node_id: NodeIdView,
    pub attribute_id: u32,
    pub index_range: Option<Seq<u8>>,
    pub data_encoding: QualifiedNameView,
}

impl View for ReadValueId {
    type V = ReadValueIdView;

    open spec fn view(&self) -> ReadValueIdView {
        ReadValueIdView {
            node_id: self.node_id@,
            attribute_id: self.attribute_id,
            index_range: self.index_range@,
            data_encoding: self.data_encoding@,
        }
    }
}

impl BinaryEncoder for ReadValueId {
    open spec fn encoding(v: ReadValueIdView) -> Seq<u8> {
        <NodeId as BinaryEncoder>::encoding(v.node_id) + <u32 as BinaryEncoder>::encoding(v.attribute_id) + <UaString as BinaryEncoder>::encoding(v.index_range) + <QualifiedName as BinaryEncoder>::encoding(v.data_encoding)
    }

    open spec fn parse(s1: Seq<u8>) -> Parsed<ReadValueIdView> {
        match <NodeId as BinaryEncoder>::parse(s1) {
            Err(e) => Err(e),
            Ok((node_id, n1)) => {
                let s2 = s1.skip(n1 as int);
                match <u32 as BinaryEncoder>::parse(s2) {
                    Err(e) => Err(e),
                    Ok((attribute_id, n2)) => {
                        let s3 = s2.skip(n2 as int);
                        match <UaString as BinaryEncoder>::parse(s3) {
                            Err(e) => Err(e),
                            Ok((index_range, n3)) => {
                                let s4 = s3.skip(n3 as int);
                                match <QualifiedName as BinaryEncoder>::parse(s4) {
                                    Err(e) => Err(e),
                                    Ok((data_encoding, n4)) => {
                                        Ok((ReadValueIdView { node_id, attribute_id, index_range, data_encoding }, n1 + n2 + n3 + n4))
                                    },
                                }
                            },
                        }
                    },
                }
            },
        }
    }

    open spec fn in_limits(v: ReadValueIdView) -> bool {
        <NodeId as BinaryEncoder>::in_limits(v.node_id) && <u32 as BinaryEncoder>::in_limits(v.attribute_id) && <UaString as BinaryEncoder>::in_limits(v.index_range) && <QualifiedName as BinaryEncoder>::in_limits(v.data_encoding)
    }

    proof fn lemma_round_trip(v: ReadValueIdView, rest: Seq<u8>) {
        let e1 = <NodeId as BinaryEncoder>::encoding(v.node_id);
        let e2 = <u32 as BinaryEncoder>::encoding(v.attribute_id);
        let e3 = <UaString as BinaryEncoder>::encoding(v.index_range);
        let e4 = <QualifiedName as BinaryEncoder>::encoding(v.data_encoding);
        let t4 = rest;
        let t3 = e4 + t4;
        let t2 = e3 + t3;
        let t1 = e2 + t2;
        lemma_assoc(e1 + e2 + e3, e4, t4);
        lemma_assoc(e1 + e2, e3, t3);
        lemma_assoc(e1, e2, t2);
        <NodeId as BinaryEncoder>::lemma_round_trip(v.node_id, t1);
        lemma_skip_concat(e1, t1);
        <u32 as BinaryEncoder>::lemma_round_trip(v.attribute_id, t2);
        lemma_skip_concat(e2, t2);
        <UaString as BinaryEncoder>::lemma_round_trip(v.index_range, t3);
        lemma_skip_concat(e3, t3);
        <QualifiedName as BinaryEncoder>::lemma_round_trip(v.data_encoding, t4);
    }

    proof fn lemma_parse_len(s1: Seq<u8>) {
        <NodeId as BinaryEncoder>::lemma_parse_len(s1);
        if let Ok((_, n1)) = <NodeId as BinaryEncoder>::parse(s1) {
            let s2 = s1.skip(n1 as int);
            <u32 as BinaryEncoder>::lemma_parse_len(s2);
            if let Ok((_, n2)) = <u32 as BinaryEncoder>::parse(s2) {
                let s3 = s2.skip(n2 as int);
                <UaString as BinaryEncoder>::lemma_parse_len(s3);
                if let Ok((_, n3)) = <UaString as BinaryEncoder>::parse(s3) {
                    let s4 = s3.skip(n3 as int);
                    <QualifiedName as BinaryEncoder>::lemma_parse_len(s4);
                }
            }
        }
    }

    fn byte_len(&self) -> usize {
        self.node_id.byte_len() + self.attribute_id.byte_len() + self.index_range.byte_len() + self.data_encoding.byte_len()
    }

    #[verifier::spinoff_prover]
    #[verifier::rlimit(100)]
    fn encode(&self, buf: &mut Vec<u8>) -> Result<usize, StatusCode> {
        let n1 = match self.node_id.encode(buf) {
            Ok(n) => n,
            Err(e) => return Err(e),
        };
        let n2 = match self.attribute_id.encode(buf) {
            Ok(n) => n,
            Err(e) => return Err(e),
        };
        let n3 = match self.index_range.encode(buf) {
            Ok(n) => n,
            Err(e) => return Err(e),
        };
        let n4 = match self.data_encoding.encode(buf) {
            Ok(n) => n,
            Err(e) => return Err(e),
        };
        proof {
            let v = self@;
            let o = old(buf)@;
            let e1 = <NodeId as BinaryEncoder>::encoding(v.node_id);
            let e2 = <u32 as BinaryEncoder>::encoding(v.attribute_id);
            let e3 = <UaString as BinaryEncoder>::encoding(v.index_range);
            let e4 = <QualifiedName as BinaryEncoder>::encoding(v.data_encoding);
            lemma_assoc(o, e1, e2);
            lemma_assoc(o, e1 + e2, e3);
            lemma_assoc(o, e1 + e2 + e3, e4);
        }
        Ok(n1 + n2 + n3 + n4)
    }

    #[verifier::spinoff_prover]
    #[verifier::rlimit(100)]
    fn decode(data: &[u8], pos: usize) -> Result<(ReadValueId, usize), StatusCode> {
        let (node_id, p1) = match <NodeId as BinaryEncoder>::decode(data, pos) {
            Ok(x) => x,
            Err(e) => return Err(e),
        };
        proof {
            lemma_skip_skip(data@, pos as int, p1 - pos);
        }
        let (attribute_id, p2) = match <u32 as BinaryEncoder>::decode(data, p1) {
            Ok(x) => x,
            Err(e) => return Err(e),
        };
        proof {
            lemma_skip_skip(data@, p1 as int, p2 - p1);
        }
        let (index_range, p3) = match <UaString as BinaryEncoder>::decode(data, p2) {
            Ok(x) => x,
            Err(e) => return Err(e),
        };
        proof {
            lemma_skip_skip(data@, p2 as int, p3 - p2);
        }
        let (data_encoding, p4) = match <QualifiedName as BinaryEncoder>::decode(data, p3) {
            Ok(x) => x,
            Err(e) => return Err(e),
        };
        Ok((ReadValueId { node_id, attribute_id, index_range, data_encoding }, p4))
    }
}

/// A Read request: the attributes to read, the oldest value acceptable (a Double, held as its bits) and the timestamps wanted.
#[derive(Debug, Clone, PartialEq, Eq)]
pub struct ReadRequest {
    pub request_header: RequestHeader,
    pub max_age: u64,
    pub timestamps_to_return: TimestampsToReturn,
    pub nodes_to_read: Option<Vec<ReadValueId>>,
}

pub struct ReadRequestView {
    pub request_header: RequestHeaderView,
    pub max_age: u64,
    pub timestamps_to_return: TimestampsToReturn,
    pub nodes_to_read: Option<Seq<ReadValueIdView>>,
}

impl View for ReadRequest {
    type V = ReadRequestView;

    open spec fn view(&self) -> ReadRequestView {
        ReadRequestView {
            request_header: self.request_header@,
            max_age: self.max_age,
            timestamps_to_return: self.timestamps_to_return,
            nodes_to_read: opt_vec_view(&self.nodes_to_read),
        }
    }
}

impl BinaryEncoder for ReadRequest {
    open spec fn encoding(v: ReadRequestView) -> Seq<u8> {
        <RequestHeader as BinaryEncoder>::encoding(v.request_header) + <u64 as BinaryEncoder>::encoding(v.max_age) + <TimestampsToReturn as BinaryEncoder>::encoding(v.timestamps_to_return) + array_encoding::<ReadValueId>(v.nodes_to_read)
    }

    open spec fn parse(s1: Seq<u8>) -> Parsed<ReadRequestView> {
        match <RequestHeader as BinaryEncoder>::parse(s1) {
            Err(e) => Err(e),
            Ok((request_header, n1)) => {
                let s2 = s1.skip(n1 as int);
                match <u64 as BinaryEncoder>::parse(s2) {
                    Err(e) => Err(e),
                    Ok((max_age, n2)) => {
                        let s3 = s2.skip(n2 as int);
                        match <TimestampsToReturn as BinaryEncoder>::parse(s3) {
                            Err(e) => Err(e),
                            Ok((timestamps_to_return, n3)) => {
                                let s4 = s3.skip(n3 as int);
                                match parse_array::<ReadValueId>(s4) {
                                    Err(e) => Err(e),
                                    Ok((nodes_to_read, n4)) => {
                                        Ok((ReadRequestView { request_header, max_age, timestamps_to_return, nodes_to_read }, n1 + n2 + n3 + n4))
                                    },
                                }
                            },
                        }
                    },
                }
            },
        }
    }

    open spec fn in_limits(v: ReadRequestView) -> bool {
        <RequestHeader as BinaryEncoder>::in_limits(v.request_header) && <u64 as BinaryEncoder>::in_limits(v.max_age) && <TimestampsToReturn as BinaryEncoder>::in_limits(v.timestamps_to_return) && array_in_limits::<ReadValueId>(v.nodes_to_read)
    }

    proof fn lemma_round_trip(v: ReadRequestView, rest: Seq<u8>) {
        let e1 = <RequestHeader as BinaryEncoder>::encoding(v.request_header);
        let e2 = <u64 as BinaryEncoder>::encoding(v.max_age);
        let e3 = <TimestampsToReturn as BinaryEncoder>::encoding(v.timestamps_to_return);
        let e4 = array_encoding::<ReadValueId>(v.nodes_to_read);
        let t4 = rest;
        let t3 = e4 + t4;
        let t2 = e3 + t3;
        let t1 = e2 + t2;
        lemma_assoc(e1 + e2 + e3, e4, t4);
        lemma_assoc(e1 + e2, e3, t3);
        lemma_assoc(e1, e2, t2);
        <RequestHeader as BinaryEncoder>::lemma_round_trip(v.request_header, t1);
        lemma_skip_concat(e1, t1);
        <u64 as BinaryEncoder>::lemma_round_trip(v.max_age, t2);
        lemma_skip_concat(e2, t2);
        <TimestampsToReturn as BinaryEncoder>::lemma_round_trip(v.timestamps_to_return, t3);
        lemma_skip_concat(e3, t3);
        lemma_array_round_trip::<ReadValueId>(v.nodes_to_read, t4);
    }

    proof fn lemma_parse_len(s1: Seq<u8>) {
        <RequestHeader as BinaryEncoder>::lemma_parse_len(s1);
        if let Ok((_, n1)) = <RequestHeader as BinaryEncoder>::parse(s1) {
            let s2 = s1.skip(n1 as int);
            <u64 as BinaryEncoder>::lemma_parse_len(s2);
            if let Ok((_, n2)) = <u64 as BinaryEncoder>::parse(s2) {
                let s3 = s2.skip(n2 as int);
                <TimestampsToReturn as BinaryEncoder>::lemma_parse_len(s3);
                if let Ok((_, n3)) = <TimestampsToReturn as BinaryEncoder>::parse(s3) {
                    let s4 = s3.skip(n3 as int);
                    lemma_array_parse_len::<ReadValueId>(s4);
                }
            }
        }
    }

    fn byte_len(&self) -> usize {
        self.request_header.byte_len() + self.max_age.byte_len() + self.timestamps_to_return.byte_len() + byte_len_array(&self.nodes_to_read)
    }

    #[verifier::spinoff_prover]
    #[verifier::rlimit(100)]
    fn encode(&self, buf: &mut Vec<u8>) -> Result<usize, StatusCode> {
        let n1 = match self.request_header.encode(buf) {
            Ok(n) => n,
            Err(e) => return Err(e),
        };
        let n2 = match self.max_age.encode(buf) {
            Ok(n) => n,
            Err(e) => return Err(e),
        };
        let n3 = match self.timestamps_to_return.encode(buf) {
            Ok(n) => n,
            Err(e) => return Err(e),
        };
        let n4 = match write_array(buf, &self.nodes_to_read) {
            Ok(n) => n,
            Err(e) => return Err(e),
        };
        proof {
            let v = self@;
            let o = old(buf)@;
            let e1 = <RequestHeader as BinaryEncoder>::encoding(v.request_header);
            let e2 = <u64 as BinaryEncoder>::encoding(v.max_age);
            let e3 = <TimestampsToReturn as BinaryEncoder>::encoding(v.timestamps_to_return);
            let e4 = array_encoding::<ReadValueId>(v.nodes_to_read);
            lemma_assoc(o, e1, e2);
            lemma_assoc(o, e1 + e2, e3);
            lemma_assoc(o, e1 + e2 + e3, e4);
        }
        Ok(n1 + n2 + n3 + n4)
    }

    #[verifier::spinoff_prover]
    #[verifier::rlimit(100)]
    fn decode(data: &[u8], pos: usize) -> Result<(ReadRequest, usize), StatusCode> {
        let (request_header, p1) = match <RequestHeader as BinaryEncoder>::decode(data, pos) {
            Ok(x) => x,
            Err(e) => return Err(e),
        };
        proof {
            lemma_skip_skip(data@, pos as int, p1 - pos);
        }
        let (max_age, p2) = match <u64 as BinaryEncoder>::decode(data, p1) {
            Ok(x) => x,
            Err(e) => return Err(e),
        };
        proof {
            lemma_skip_skip(data@, p1 as int, p2 - p1);
        }
        let (timestamps_to_return, p3) = match <TimestampsToReturn as BinaryEncoder>::decode(data, p2) {
            Ok(x) => x,
            Err(e) => return Err(e),
        };
        proof {
            lemma_skip_skip(data@, p2 as int, p3 - p2);
        }
        let (nodes_to_read, p4) = match read_array::<ReadValueId>(data, p3) {
            Ok(x) => x,
            Err(e) => return Err(e),
        };
        Ok((ReadRequest { request_header, max_age, timestamps_to_return, nodes_to_read }, p4))
    }
}

} // verus!
