//! Wire records: DiagnosticInfo, Argument, FilterOperand and ContentFilterElementResult.
use vstd::prelude::*;
use crate::array::{
    array_encoding, array_in_limits, parse_array, opt_vec_view, lemma_array_round_trip,
    lemma_array_parse_len, byte_len_array, write_array, read_array,
};
use crate::basic::{
    opt_view, opt_encoding, opt_in_limits, parse_opt, lemma_opt_round_trip, lemma_opt_parse_len,
    write_opt, byte_len_opt, read_opt, mask_bit, mask_of, lemma_mask_of, mask_byte, test_bit,
    LocalizedText, LocalizedTextView,
};
use crate::codec::{BinaryEncoder, Parsed, parse_u8, write_u8, read_u8};
use crate::node_id::{NodeId, NodeIdView, lemma_skip_concat, lemma_assoc, lemma_skip_skip};
use crate::string::UaString;
use crate::status::StatusCode;

verus! {

// ---------------------------------------------------------------- DiagnosticInfo

/// Vendor diagnostics for a status code. Each field is present or absent, as the
/// leading encoding mask says; nested diagnostics are not carried.
#[derive(Debug, Clone, PartialEq, Eq)]
pub struct DiagnosticInfo {
    pub symbolic_id: Option<i32>,
    pub namespace_uri: Option<i32>,
    pub localized_text: Option<i32>,
    pub locale: Option<i32>,
    pub additional_info: Option<UaString>,
    pub inner_status_code: Option<u32>,
}

pub struct DiagnosticInfoView {
    pub symbolic_id: Option<i32>,
    pub namespace_uri: Option<i32>,
    pub localized_text: Option<i32>,
    pub locale: Option<i32>,
    pub additional_info: Option<Option<Seq<u8>>>,
    pub inner_status_code: Option<u32>,
}

impl View for DiagnosticInfo {
    type V = DiagnosticInfoView;

    open spec fn view(&self) -> DiagnosticInfoView {
        DiagnosticInfoView {
            symbolic_id: self.symbolic_id,
            namespace_uri: self.namespace_uri,
            localized_text: self.localized_text,
            locale: self.locale,
            additional_info: opt_view(&self.additional_info),
            inner_status_code: self.inner_status_code,
        }
    }
}

impl DiagnosticInfo {
    /// Diagnostics with every field absent.
    pub fn null() -> (r: DiagnosticInfo)
        ensures
            r@ == (DiagnosticInfoView {
                symbolic_id: None,
                namespace_uri: None,
                localized_text: None,
                locale: None,
                additional_info: None,
                inner_status_code: None,
            }),
    {
        DiagnosticInfo {
            symbolic_id: None,
            namespace_uri: None,
            localized_text: None,
            locale: None,
            additional_info: None,
            inner_status_code: None,
        }
    }
}

pub open spec fn diagnostic_mask(v: DiagnosticInfoView) -> u8 {
    mask_of(
        v.symbolic_id is Some,
        v.namespace_uri is Some,
        v.localized_text is Some,
        v.locale is Some,
        v.additional_info is Some,
        v.inner_status_code is Some,
    )
}

pub open spec fn parse_diagnostic_fields(m: u8, s1: Seq<u8>) -> Parsed<DiagnosticInfoView> {
    match parse_opt::<i32>(mask_bit(m, 0), s1) {
        Err(e) => Err(e),
        Ok((symbolic_id, n1)) => {
            let s2 = s1.skip(n1 as int);
            match parse_opt::<i32>(mask_bit(m, 1), s2) {
                Err(e) => Err(e),
                Ok((namespace_uri, n2)) => {
                    let s3 = s2.skip(n2 as int);
                    match parse_opt::<i32>(mask_bit(m, 3), s3) {
                        Err(e) => Err(e),
                        Ok((locale, n3)) => {
                            let s4 = s3.skip(n3 as int);
                            match parse_opt::<i32>(mask_bit(m, 2), s4) {
                                Err(e) => Err(e),
                                Ok((localized_text, n4)) => {
                                    let s5 = s4.skip(n4 as int);
                                    match parse_opt::<UaString>(mask_bit(m, 4), s5) {
                                        Err(e) => Err(e),
                                        Ok((additional_info, n5)) => {
                                            let s6 = s5.skip(n5 as int);
                                            match parse_opt::<u32>(mask_bit(m, 5), s6) {
                                                Err(e) => Err(e),
                                                Ok((inner_status_code, n6)) => Ok(
                                                    (
                                                        DiagnosticInfoView {
                                                            symbolic_id,
                                                            namespace_uri,
                                                            localized_text,
                                                            locale,
                                                            additional_info,
                                                            inner_status_code,
                                                        },
                                                        n1 + n2 + n3 + n4 + n5 + n6,
                                                    ),
                                                ),
                                            }
                                        },
                                    }
                                },
                            }
                        },
                    }
                },
            }
        },
    }
}

impl BinaryEncoder for DiagnosticInfo {
    open spec fn encoding(v: DiagnosticInfoView) -> Seq<u8> {
        seq![diagnostic_mask(v)] + opt_encoding::<i32>(v.symbolic_id) + opt_encoding::<i32>(
            v.namespace_uri,
        ) + opt_encoding::<i32>(v.locale) + opt_encoding::<i32>(v.localized_text)
            + opt_encoding::<UaString>(v.additional_info) + opt_encoding::<u32>(
            v.inner_status_code,
        )
    }

    open spec fn parse(s: Seq<u8>) -> Parsed<DiagnosticInfoView> {
        match parse_u8(s) {
            Err(e) => Err(e),
            Ok((m, _)) => if mask_bit(m, 6) {
                Err(StatusCode::BadDecodingError)
            } else {
                match parse_diagnostic_fields(m, s.skip(1)) {
                    Err(e) => Err(e),
                    Ok((v, n)) => Ok((v, 1 + n)),
                }
            },
        }
    }

    open spec fn in_limits(v: DiagnosticInfoView) -> bool {
        opt_in_limits::<UaString>(v.additional_info)
    }

    proof fn lemma_round_trip(v: DiagnosticInfoView, rest: Seq<u8>) {
        let m = diagnostic_mask(v);
        lemma_mask_of(
            v.symbolic_id is Some,
            v.namespace_uri is Some,
            v.localized_text is Some,
            v.locale is Some,
            v.additional_info is Some,
            v.inner_status_code is Some,
        );
        let e1 = opt_encoding::<i32>(v.symbolic_id);
        let e2 = opt_encoding::<i32>(v.namespace_uri);
        let e3 = opt_encoding::<i32>(v.locale);
        let e4 = opt_encoding::<i32>(v.localized_text);
        let e5 = opt_encoding::<UaString>(v.additional_info);
        let e6 = opt_encoding::<u32>(v.inner_status_code);
        let t6 = rest;
        let t5 = e6 + t6;
        let t4 = e5 + t5;
        let t3 = e4 + t4;
        let t2 = e3 + t3;
        let t1 = e2 + t2;
        let t0 = e1 + t1;
        let p0 = seq![m];
        let p1 = p0 + e1;
        let p2 = p1 + e2;
        let p3 = p2 + e3;
        let p4 = p3 + e4;
        let p5 = p4 + e5;
        let s = p5 + e6 + rest;
        lemma_assoc(p5, e6, t6);
        lemma_assoc(p4, e5, t5);
        lemma_assoc(p3, e4, t4);
        lemma_assoc(p2, e3, t3);
        lemma_assoc(p1, e2, t2);
        lemma_assoc(p0, e1, t1);
        lemma_skip_concat(p0, t0);
        lemma_opt_round_trip::<i32>(v.symbolic_id, t1);
        lemma_skip_concat(e1, t1);
        lemma_opt_round_trip::<i32>(v.namespace_uri, t2);
        lemma_skip_concat(e2, t2);
        lemma_opt_round_trip::<i32>(v.locale, t3);
        lemma_skip_concat(e3, t3);
        lemma_opt_round_trip::<i32>(v.localized_text, t4);
        lemma_skip_concat(e4, t4);
        lemma_opt_round_trip::<UaString>(v.additional_info, t5);
        lemma_skip_concat(e5, t5);
        lemma_opt_round_trip::<u32>(v.inner_status_code, t6);
        assert(s[0] == m);
    }

    proof fn lemma_parse_len(s: Seq<u8>) {
        if s.len() >= 1 {
            let m = s[0];
            let s1 = s.skip(1);
            lemma_opt_parse_len::<i32>(mask_bit(m, 0), s1);
            if let Ok((_, n1)) = parse_opt::<i32>(mask_bit(m, 0), s1) {
                let s2 = s1.skip(n1 as int);
                lemma_opt_parse_len::<i32>(mask_bit(m, 1), s2);
                if let Ok((_, n2)) = parse_opt::<i32>(mask_bit(m, 1), s2) {
                    let s3 = s2.skip(n2 as int);
                    lemma_opt_parse_len::<i32>(mask_bit(m, 3), s3);
                    if let Ok((_, n3)) = parse_opt::<i32>(mask_bit(m, 3), s3) {
                        let s4 = s3.skip(n3 as int);
                        lemma_opt_parse_len::<i32>(mask_bit(m, 2), s4);
                        if let Ok((_, n4)) = parse_opt::<i32>(mask_bit(m, 2), s4) {
                            let s5 = s4.skip(n4 as int);
                            lemma_opt_parse_len::<UaString>(mask_bit(m, 4), s5);
                            if let Ok((_, n5)) = parse_opt::<UaString>(mask_bit(m, 4), s5) {
                                let s6 = s5.skip(n5 as int);
                                lemma_opt_parse_len::<u32>(mask_bit(m, 5), s6);
                            }
                        }
                    }
                }
            }
        }
    }

    fn byte_len(&self) -> usize {
        1 + byte_len_opt(&self.symbolic_id) + byte_len_opt(&self.namespace_uri) + byte_len_opt(
            &self.locale,
        ) + byte_len_opt(&self.localized_text) + byte_len_opt(&self.additional_info)
            + byte_len_opt(&self.inner_status_code)
    }

    #[verifier::spinoff_prover]
    #[verifier::rlimit(100)]
    fn encode(&self, buf: &mut Vec<u8>) -> Result<usize, StatusCode> {
        let m: u8 = mask_byte(
            self.symbolic_id.is_some(),
            self.namespace_uri.is_some(),
            self.localized_text.is_some(),
            self.locale.is_some(),
            self.additional_info.is_some(),
            self.inner_status_code.is_some(),
        );
        write_u8(buf, m);
        let n1 = match write_opt(buf, &self.symbolic_id) {
            Ok(n) => n,
            Err(e) => return Err(e),
        };
        let n2 = match write_opt(buf, &self.namespace_uri) {
            Ok(n) => n,
            Err(e) => return Err(e),
        };
        let n3 = match write_opt(buf, &self.locale) {
            Ok(n) => n,
            Err(e) => return Err(e),
        };
        let n4 = match write_opt(buf, &self.localized_text) {
            Ok(n) => n,
            Err(e) => return Err(e),
        };
        let n5 = match write_opt(buf, &self.additional_info) {
            Ok(n) => n,
            Err(e) => return Err(e),
        };
        let n6 = match write_opt(buf, &self.inner_status_code) {
            Ok(n) => n,
            Err(e) => return Err(e),
        };
        proof {
            let v = self@;
            let o = old(buf)@;
            let e0 = seq![m];
            let e1 = opt_encoding::<i32>(v.symbolic_id);
            let e2 = opt_encoding::<i32>(v.namespace_uri);
            let e3 = opt_encoding::<i32>(v.locale);
            let e4 = opt_encoding::<i32>(v.localized_text);
            let e5 = opt_encoding::<UaString>(v.additional_info);
            let e6 = opt_encoding::<u32>(v.inner_status_code);
            lemma_assoc(o, e0, e1);
            lemma_assoc(o, e0 + e1, e2);
            lemma_assoc(o, e0 + e1 + e2, e3);
            lemma_assoc(o, e0 + e1 + e2 + e3, e4);
            lemma_assoc(o, e0 + e1 + e2 + e3 + e4, e5);
            lemma_assoc(o, e0 + e1 + e2 + e3 + e4 + e5, e6);
        }
        Ok(1 + n1 + n2 + n3 + n4 + n5 + n6)
    }

    #[verifier::spinoff_prover]
    #[verifier::rlimit(100)]
    fn decode(data: &[u8], pos: usize) -> Result<(DiagnosticInfo, usize), StatusCode> {
        let ghost s = data@.skip(pos as int);
        let (m, p1) = match read_u8(data, pos) {
            Ok(x) => x,
            Err(e) => return Err(e),
        };
        if test_bit(m, 6) {
            return Err(StatusCode::BadDecodingError);
        }
        assert(s.skip(1) =~= data@.skip(p1 as int));
        let (symbolic_id, p2) = match read_opt::<i32>(data, p1, test_bit(m, 0)) {
            Ok(x) => x,
            Err(e) => return Err(e),
        };
        proof {
            lemma_skip_skip(data@, p1 as int, p2 - p1);
        }
        let (namespace_uri, p3) = match read_opt::<i32>(data, p2, test_bit(m, 1)) {
            Ok(x) => x,
            Err(e) => return Err(e),
        };
        proof {
            lemma_skip_skip(data@, p2 as int, p3 - p2);
        }
        let (locale, p4) = match read_opt::<i32>(data, p3, test_bit(m, 3)) {
            Ok(x) => x,
            Err(e) => return Err(e),
        };
        proof {
            lemma_skip_skip(data@, p3 as int, p4 - p3);
        }
        let (localized_text, p5) = match read_opt::<i32>(data, p4, test_bit(m, 2)) {
            Ok(x) => x,
            Err(e) => return Err(e),
        };
        proof {
            lemma_skip_skip(data@, p4 as int, p5 - p4);
        }
        let (additional_info, p6) = match read_opt::<UaString>(data, p5, test_bit(m, 4)) {
            Ok(x) => x,
            Err(e) => return Err(e),
        };
        proof {
            lemma_skip_skip(data@, p5 as int, p6 - p5);
        }
        let (inner_status_code, p7) = match read_opt::<u32>(data, p6, test_bit(m, 5)) {
            Ok(x) => x,
            Err(e) => return Err(e),
        };
        Ok(
            (
                DiagnosticInfo {
                    symbolic_id,
                    namespace_uri,
                    localized_text,
                    locale,
                    additional_info,
                    inner_status_code,
                },
                p7,
            ),
        )
    }
}


// ---------------------------------------------------------------- Argument

/// An argument for a method.
#[derive(Debug, Clone, PartialEq, Eq)]
pub struct Argument {
    pub name: UaString,
    pub data_type: NodeId,
    pub value_rank: i32,
    pub array_dimensions: Option<Vec<u32>>,
    pub description: LocalizedText,
}

pub struct ArgumentView {
    pub name: Option<Seq<u8>>,
    pub data_type: NodeIdView,
    pub value_rank: i32,
    pub array_dimensions: Option<Seq<u32>>,
    pub description: LocalizedTextView,
}

impl View for Argument {
    type V = ArgumentView;

    open spec fn view(&self) -> ArgumentView {
        ArgumentView {
            name: self.name@,
            data_type: self.data_type@,
            value_rank: self.value_rank,
            array_dimensions: opt_vec_view(&self.array_dimensions),
            description: self.description@,
        }
    }
}

impl BinaryEncoder for Argument {
    open spec fn encoding(v: ArgumentView) -> Seq<u8> {
        UaString::encoding(v.name) + NodeId::encoding(v.data_type) + <i32 as BinaryEncoder>::encoding(
            v.value_rank,
        ) + array_encoding::<u32>(v.array_dimensions) + LocalizedText::encoding(v.description)
    }

    open spec fn parse(s1: Seq<u8>) -> Parsed<ArgumentView> {
        match UaString::parse(s1) {
            Err(e) => Err(e),
            Ok((name, n1)) => {
                let s2 = s1.skip(n1 as int);
                match NodeId::parse(s2) {
                    Err(e) => Err(e),
                    Ok((data_type, n2)) => {
                        let s3 = s2.skip(n2 as int);
                        match <i32 as BinaryEncoder>::parse(s3) {
                            Err(e) => Err(e),
                            Ok((value_rank, n3)) => {
                                let s4 = s3.skip(n3 as int);
                                match parse_array::<u32>(s4) {
                                    Err(e) => Err(e),
                                    Ok((array_dimensions, n4)) => {
                                        let s5 = s4.skip(n4 as int);
                                        match LocalizedText::parse(s5) {
                                            Err(e) => Err(e),
                                            Ok((description, n5)) => Ok(
                                                (
                                                    ArgumentView {
                                                        name,
                                                        data_type,
                                                        value_rank,
                                                        array_dimensions,
                                                        description,
                                                    },
                                                    n1 + n2 + n3 + n4 + n5,
                                                ),
                                            ),
                                        }
                                    },
                                }
                            },
                        }
                    },
                }
            },
        }
    }

    open spec fn in_limits(v: ArgumentView) -> bool {
        &&& UaString::in_limits(v.name)
        &&& NodeId::in_limits(v.data_type)
        &&& array_in_limits::<u32>(v.array_dimensions)
        &&& LocalizedText::in_limits(v.description)
    }

    proof fn lemma_round_trip(v: ArgumentView, rest: Seq<u8>) {
        let e1 = UaString::encoding(v.name);
        let e2 = NodeId::encoding(v.data_type);
        let e3 = <i32 as BinaryEncoder>::encoding(v.value_rank);
        let e4 = array_encoding::<u32>(v.array_dimensions);
        let e5 = LocalizedText::encoding(v.description);
        let t5 = rest;
        let t4 = e5 + t5;
        let t3 = e4 + t4;
        let t2 = e3 + t3;
        let t1 = e2 + t2;
        let t0 = e1 + t1;
        lemma_assoc(e1 + e2 + e3 + e4, e5, t5);
        lemma_assoc(e1 + e2 + e3, e4, t4);
        lemma_assoc(e1 + e2, e3, t3);
        lemma_assoc(e1, e2, t2);
        UaString::lemma_round_trip(v.name, t1);
        lemma_skip_concat(e1, t1);
        NodeId::lemma_round_trip(v.data_type, t2);
        lemma_skip_concat(e2, t2);
        <i32 as BinaryEncoder>::lemma_round_trip(v.value_rank, t3);
        lemma_skip_concat(e3, t3);
        lemma_array_round_trip::<u32>(v.array_dimensions, t4);
        lemma_skip_concat(e4, t4);
        LocalizedText::lemma_round_trip(v.description, t5);
    }

    proof fn lemma_parse_len(s1: Seq<u8>) {
        UaString::lemma_parse_len(s1);
        if let Ok((_, n1)) = UaString::parse(s1) {
            let s2 = s1.skip(n1 as int);
            NodeId::lemma_parse_len(s2);
            if let Ok((_, n2)) = NodeId::parse(s2) {
                let s3 = s2.skip(n2 as int);
                if let Ok((_, n3)) = <i32 as BinaryEncoder>::parse(s3) {
                    let s4 = s3.skip(n3 as int);
                    lemma_array_parse_len::<u32>(s4);
                    if let Ok((_, n4)) = parse_array::<u32>(s4) {
                        LocalizedText::lemma_parse_len(s4.skip(n4 as int));
                    }
                }
            }
        }
    }

    fn byte_len(&self) -> usize {
        self.name.byte_len() + self.data_type.byte_len() + self.value_rank.byte_len()
            + byte_len_array(&self.array_dimensions) + self.description.byte_len()
    }

    #[verifier::spinoff_prover]
    #[verifier::rlimit(100)]
    fn encode(&self, buf: &mut Vec<u8>) -> Result<usize, StatusCode> {
        let n1 = match self.name.encode(buf) {
            Ok(n) => n,
            Err(e) => return Err(e),
        };
        let n2 = match self.data_type.encode(buf) {
            Ok(n) => n,
            Err(e) => return Err(e),
        };
        let n3 = match self.value_rank.encode(buf) {
            Ok(n) => n,
            Err(e) => return Err(e),
        };
        let n4 = match write_array(buf, &self.array_dimensions) {
            Ok(n) => n,
            Err(e) => return Err(e),
        };
        let n5 = match self.description.encode(buf) {
            Ok(n) => n,
            Err(e) => return Err(e),
        };
        proof {
            let v = self@;
            let o = old(buf)@;
            let e1 = UaString::encoding(v.name);
            let e2 = NodeId::encoding(v.data_type);
            let e3 = <i32 as BinaryEncoder>::encoding(v.value_rank);
            let e4 = array_encoding::<u32>(v.array_dimensions);
            let e5 = LocalizedText::encoding(v.description);
            lemma_assoc(o, e1, e2);
            lemma_assoc(o, e1 + e2, e3);
            lemma_assoc(o, e1 + e2 + e3, e4);
            lemma_assoc(o, e1 + e2 + e3 + e4, e5);
        }
        Ok(n1 + n2 + n3 + n4 + n5)
    }

    #[verifier::spinoff_prover]
    #[verifier::rlimit(100)]
    fn decode(data: &[u8], pos: usize) -> Result<(Argument, usize), StatusCode> {
        let (name, p2) = match UaString::decode(data, pos) {
            Ok(x) => x,
            Err(e) => return Err(e),
        };
        proof {
            lemma_skip_skip(data@, pos as int, p2 - pos);
        }
        let (data_type, p3) = match NodeId::decode(data, p2) {
            Ok(x) => x,
            Err(e) => return Err(e),
        };
        proof {
            lemma_skip_skip(data@, p2 as int, p3 - p2);
        }
        let (value_rank, p4) = match <i32 as BinaryEncoder>::decode(data, p3) {
            Ok(x) => x,
            Err(e) => return Err(e),
        };
        proof {
            lemma_skip_skip(data@, p3 as int, p4 - p3);
        }
        let (array_dimensions, p5) = match read_array::<u32>(data, p4) {
            Ok(x) => x,
            Err(e) => return Err(e),
        };
        proof {
            lemma_skip_skip(data@, p4 as int, p5 - p4);
        }
        let (description, p6) = match LocalizedText::decode(data, p5) {
            Ok(x) => x,
            Err(e) => return Err(e),
        };
        Ok((Argument { name, data_type, value_rank, array_dimensions, description }, p6))
    }
}

// ---------------------------------------------------------------- FilterOperand

/// The base of the operands of a content filter; it carries no fields of its own.
#[derive(Debug, Clone, PartialEq, Eq)]
pub struct FilterOperand {}

impl View for FilterOperand {
    type V = ();

    open spec fn view(&self) -> () {
        ()
    }
}

impl BinaryEncoder for FilterOperand {
    open spec fn encoding(v: ()) -> Seq<u8> {
        seq![]
    }

    open spec fn parse(s: Seq<u8>) -> Parsed<()> {
        Ok(((), 0))
    }

    open spec fn in_limits(v: ()) -> bool {
        true
    }

    proof fn lemma_round_trip(v: (), rest: Seq<u8>) {
    }

    proof fn lemma_parse_len(s: Seq<u8>) {
    }

    fn byte_len(&self) -> usize {
        0
    }

    #[verifier::spinoff_prover]
    #[verifier::rlimit(100)]
    fn encode(&self, buf: &mut Vec<u8>) -> Result<usize, StatusCode> {
        assert(buf@ =~= old(buf)@ + seq![]);
        Ok(0)
    }

    #[verifier::spinoff_prover]
    #[verifier::rlimit(100)]
    fn decode(data: &[u8], pos: usize) -> Result<(FilterOperand, usize), StatusCode> {
        Ok((FilterOperand {  }, pos))
    }
}

// ---------------------------------------------------------------- ContentFilterElementResult

/// The outcome of checking one element of a content filter.
#[derive(Debug, Clone, PartialEq, Eq)]
pub struct ContentFilterElementResult {
    pub status_code: u32,
    pub operand_status_codes: Option<Vec<u32>>,
    pub operand_diagnostic_infos: Option<Vec<DiagnosticInfo>>,
}

pub struct ContentFilterElementResultView {
    pub status_code: u32,
    pub operand_status_codes: Option<Seq<u32>>,
    pub operand_diagnostic_infos: Option<Seq<DiagnosticInfoView>>,
}

impl View for ContentFilterElementResult {
    type V = ContentFilterElementResultView;

    open spec fn view(&self) -> ContentFilterElementResultView {
        ContentFilterElementResultView {
            status_code: self.status_code,
            operand_status_codes: opt_vec_view(&self.operand_status_codes),
            operand_diagnostic_infos: opt_vec_view(&self.operand_diagnostic_infos),
        }
    }
}

impl BinaryEncoder for ContentFilterElementResult {
    open spec fn encoding(v: ContentFilterElementResultView) -> Seq<u8> {
        <u32 as BinaryEncoder>::encoding(v.status_code) + array_encoding::<u32>(
            v.operand_status_codes,
        ) + array_encoding::<DiagnosticInfo>(v.operand_diagnostic_infos)
    }

    open spec fn parse(s1: Seq<u8>) -> Parsed<ContentFilterElementResultView> {
        match <u32 as BinaryEncoder>::parse(s1) {
            Err(e) => Err(e),
            Ok((status_code, n1)) => {
                let s2 = s1.skip(n1 as int);
                match parse_array::<u32>(s2) {
                    Err(e) => Err(e),
                    Ok((operand_status_codes, n2)) => {
                        let s3 = s2.skip(n2 as int);
                        match parse_array::<DiagnosticInfo>(s3) {
                            Err(e) => Err(e),
                            Ok((operand_diagnostic_infos, n3)) => Ok(
                                (
                                    ContentFilterElementResultView {
                                        status_code,
                                        operand_status_codes,
                                        operand_diagnostic_infos,
                                    },
                                    n1 + n2 + n3,
                                ),
                            ),
                        }
                    },
                }
            },
        }
    }

    open spec fn in_limits(v: ContentFilterElementResultView) -> bool {
        array_in_limits::<u32>(v.operand_status_codes) && array_in_limits::<DiagnosticInfo>(
            v.operand_diagnostic_infos,
        )
    }

    proof fn lemma_round_trip(v: ContentFilterElementResultView, rest: Seq<u8>) {
        let e1 = <u32 as BinaryEncoder>::encoding(v.status_code);
        let e2 = array_encoding::<u32>(v.operand_status_codes);
        let e3 = array_encoding::<DiagnosticInfo>(v.operand_diagnostic_infos);
        let t3 = rest;
        let t2 = e3 + t3;
        let t1 = e2 + t2;
        lemma_assoc(e1 + e2, e3, t3);
        lemma_assoc(e1, e2, t2);
        <u32 as BinaryEncoder>::lemma_round_trip(v.status_code, t1);
        lemma_skip_concat(e1, t1);
        lemma_array_round_trip::<u32>(v.operand_status_codes, t2);
        lemma_skip_concat(e2, t2);
        lemma_array_round_trip::<DiagnosticInfo>(v.operand_diagnostic_infos, t3);
    }

    proof fn lemma_parse_len(s1: Seq<u8>) {
        if let Ok((_, n1)) = <u32 as BinaryEncoder>::parse(s1) {
            let s2 = s1.skip(n1 as int);
            lemma_array_parse_len::<u32>(s2);
            if let Ok((_, n2)) = parse_array::<u32>(s2) {
                lemma_array_parse_len::<DiagnosticInfo>(s2.skip(n2 as int));
            }
        }
    }

    fn byte_len(&self) -> usize {
        4 + byte_len_array(&self.operand_status_codes) + byte_len_array(
            &self.operand_diagnostic_infos,
        )
    }

    #[verifier::spinoff_prover]
    #[verifier::rlimit(100)]
    fn encode(&self, buf: &mut Vec<u8>) -> Result<usize, StatusCode> {
        let n1 = match self.status_code.encode(buf) {
            Ok(n) => n,
            Err(e) => return Err(e),
        };
        let n2 = match write_array(buf, &self.operand_status_codes) {
            Ok(n) => n,
            Err(e) => return Err(e),
        };
        let n3 = match write_array(buf, &self.operand_diagnostic_infos) {
            Ok(n) => n,
            Err(e) => return Err(e),
        };
        proof {
            let v = self@;
            let o = old(buf)@;
            let e1 = <u32 as BinaryEncoder>::encoding(v.status_code);
            let e2 = array_encoding::<u32>(v.operand_status_codes);
            let e3 = array_encoding::<DiagnosticInfo>(v.operand_diagnostic_infos);
            lemma_assoc(o, e1, e2);
            lemma_assoc(o, e1 + e2, e3);
        }
        Ok(n1 + n2 + n3)
    }

    #[verifier::spinoff_prover]
    #[verifier::rlimit(100)]
    fn decode(data: &[u8], pos: usize) -> Result<(ContentFilterElementResult, usize), StatusCode> {
        let (status_code, p2) = match <u32 as BinaryEncoder>::decode(data, pos) {
            Ok(x) => x,
            Err(e) => return Err(e),
        };
        proof {
            lemma_skip_skip(data@, pos as int, p2 - pos);
        }
        let (operand_status_codes, p3) = match read_array::<u32>(data, p2) {
            Ok(x) => x,
            Err(e) => return Err(e),
        };
        proof {
            lemma_skip_skip(data@, p2 as int, p3 - p2);
        }
        let (operand_diagnostic_infos, p4) = match read_array::<DiagnosticInfo>(data, p3) {
            Ok(x) => x,
            Err(e) => return Err(e),
        };
        Ok(
            (
                ContentFilterElementResult {
                    status_code,
                    operand_status_codes,
                    operand_diagnostic_infos,
                },
                p4,
            ),
        )
    }
}

} // verus!
