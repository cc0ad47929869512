//! QualifiedName, LocalizedText, DiagnosticInfo and ExtensionObject.
use vstd::prelude::*;
use crate::codec::{BinaryEncoder, Parsed, encoded_as, decoded_as, parse_u8, write_u8, read_u8};
use vstd::string::StringSliceAdditionalSpecFns;
use crate::node_id::lemma_skip_concat;
use crate::string::UaString;
use crate::status::StatusCode;

verus! {

pub open spec fn opt_view<T: View>(o: &Option<T>) -> Option<T::V> {
    match o {
        Some(x) => Some(x@),
        None => None,
    }
}

/// An optional field: its encoding when present, nothing when absent.
#[verifier::opaque]
pub open spec fn opt_encoding<T: BinaryEncoder>(o: Option<T::V>) -> Seq<u8> {
    match o {
        Some(x) => T::encoding(x),
        None => seq![],
    }
}

pub open spec fn opt_in_limits<T: BinaryEncoder>(o: Option<T::V>) -> bool {
    match o {
        Some(x) => T::in_limits(x),
        None => true,
    }
}

/// Reads an optional field that an encoding mask marks `present` or not.
#[verifier::opaque]
pub open spec fn parse_opt<T: BinaryEncoder>(present: bool, s: Seq<u8>) -> Parsed<Option<T::V>> {
    if !present {
        Ok((None, 0))
    } else {
        match T::parse(s) {
            Err(e) => Err(e),
            Ok((x, n)) => Ok((Some(x), n)),
        }
    }
}

pub proof fn lemma_opt_round_trip<T: BinaryEncoder>(o: Option<T::V>, rest: Seq<u8>)
    requires
        opt_in_limits::<T>(o),
    ensures
        parse_opt::<T>(o is Some, opt_encoding::<T>(o) + rest) == Ok::<
            (Option<T::V>, nat),
            StatusCode,
        >((o, opt_encoding::<T>(o).len())),
{
    reveal(opt_encoding);
    reveal(parse_opt);
    match o {
        Some(x) => T::lemma_round_trip(x, rest),
        None => {
            assert(seq![] + rest =~= rest);
        },
    }
}

pub proof fn lemma_opt_parse_len<T: BinaryEncoder>(present: bool, s: Seq<u8>)
    ensures
        parse_opt::<T>(present, s) matches Ok((o, n)) ==> n <= s.len() && opt_in_limits::<T>(o),
{
    reveal(parse_opt);
    T::lemma_parse_len(s);
}

pub fn write_opt<T: BinaryEncoder>(buf: &mut Vec<u8>, o: &Option<T>) -> (r: Result<
    usize,
    StatusCode,
>)
    requires
        old(buf)@.len() + opt_encoding::<T>(opt_view(o)).len() <= usize::MAX,
    ensures
        encoded_as(
            r,
            old(buf)@,
            final(buf)@,
            opt_encoding::<T>(opt_view(o)),
            opt_in_limits::<T>(opt_view(o)),
        ),
{
    proof {
        reveal(opt_encoding);
    }
    match o {
        Some(x) => x.encode(buf),
        None => {
            assert(buf@ =~= old(buf)@ + seq![]);
            Ok(0)
        },
    }
}

pub fn byte_len_opt<T: BinaryEncoder>(o: &Option<T>) -> (r: usize)
    requires
        opt_encoding::<T>(opt_view(o)).len() <= usize::MAX,
    ensures
        r == opt_encoding::<T>(opt_view(o)).len(),
{
    proof {
        reveal(opt_encoding);
    }
    match o {
        Some(x) => x.byte_len(),
        None => 0,
    }
}

pub fn read_opt<T: BinaryEncoder>(data: &[u8], pos: usize, present: bool) -> (r: Result<
    (Option<T>, usize),
    StatusCode,
>)
    requires
        pos <= data@.len(),
    ensures
        match (r, parse_opt::<T>(present, data@.skip(pos as int))) {
            (Ok((v, end)), Ok((w, n))) => opt_view(&v) == w && end == pos + n,
            (Err(e), Err(f)) => e == f,
            _ => false,
        },
        r matches Ok((_, end)) ==> end <= data@.len(),
{
    proof {
        reveal(parse_opt);
    }
    if !present {
        Ok((None, pos))
    } else {
        match T::decode(data, pos) {
            Err(e) => Err(e),
            Ok((x, end)) => Ok((Some(x), end)),
        }
    }
}

/// Bit `k` of an encoding mask.
pub open spec fn mask_bit(mask: u8, k: u8) -> bool {
    (mask >> k) & 1u8 == 1u8
}

/// One bit of an encoding mask, before it is shifted into place.
pub open spec fn flag(b: bool) -> u8 {
    if b {
        1u8
    } else {
        0u8
    }
}

#[verifier::opaque]
pub open spec fn mask_of(f0: bool, f1: bool, f2: bool, f3: bool, f4: bool, f5: bool) -> u8 {
    flag(f0) | (flag(f1) << 1u8) | (flag(f2) << 2u8) | (flag(f3) << 3u8) | (flag(f4) << 4u8) | (
    flag(f5) << 5u8)
}

pub proof fn lemma_mask_of(f0: bool, f1: bool, f2: bool, f3: bool, f4: bool, f5: bool)
    ensures
        mask_bit(mask_of(f0, f1, f2, f3, f4, f5), 0) == f0,
        mask_bit(mask_of(f0, f1, f2, f3, f4, f5), 1) == f1,
        mask_bit(mask_of(f0, f1, f2, f3, f4, f5), 2) == f2,
        mask_bit(mask_of(f0, f1, f2, f3, f4, f5), 3) == f3,
        mask_bit(mask_of(f0, f1, f2, f3, f4, f5), 4) == f4,
        mask_bit(mask_of(f0, f1, f2, f3, f4, f5), 5) == f5,
        !mask_bit(mask_of(f0, f1, f2, f3, f4, f5), 6),
{
    reveal(mask_of);
    let (a, b, c, d, e, f) = (flag(f0), flag(f1), flag(f2), flag(f3), flag(f4), flag(f5));
    assert(a <= 1 && b <= 1 && c <= 1 && d <= 1 && e <= 1 && f <= 1 ==> {
        let m = a | (b << 1u8) | (c << 2u8) | (d << 3u8) | (e << 4u8) | (f << 5u8);
        &&& (m >> 0u8) & 1u8 == a
        &&& (m >> 1u8) & 1u8 == b
        &&& (m >> 2u8) & 1u8 == c
        &&& (m >> 3u8) & 1u8 == d
        &&& (m >> 4u8) & 1u8 == e
        &&& (m >> 5u8) & 1u8 == f
        &&& (m >> 6u8) & 1u8 == 0
    }) by (bit_vector);
}

pub fn mask_byte(f0: bool, f1: bool, f2: bool, f3: bool, f4: bool, f5: bool) -> (r: u8)
    ensures
        r == mask_of(f0, f1, f2, f3, f4, f5),
{
    proof {
        reveal(mask_of);
    }
    let a: u8 = if f0 { 1 } else { 0 };
    let b: u8 = if f1 { 1 } else { 0 };
    let c: u8 = if f2 { 1 } else { 0 };
    let d: u8 = if f3 { 1 } else { 0 };
    let e: u8 = if f4 { 1 } else { 0 };
    let f: u8 = if f5 { 1 } else { 0 };
    a | (b << 1u8) | (c << 2u8) | (d << 3u8) | (e << 4u8) | (f << 5u8)
}

pub fn test_bit(mask: u8, k: u8) -> (r: bool)
    requires
        k < 8,
    ensures
        r == mask_bit(mask, k),
{
    (mask >> k) & 1u8 == 1u8
}

// ---------------------------------------------------------------- QualifiedName

/// A name qualified by a namespace index.
#[derive(Debug, Clone, PartialEq, Eq)]
pub struct QualifiedName {
    pub namespace_index: u16,
    pub name: UaString,
}

pub struct QualifiedNameView {
    pub namespace_index: u16,
    pub name: Option<Seq<u8>>,
}

impl View for QualifiedName {
    type V = QualifiedNameView;

    open spec fn view(&self) -> QualifiedNameView {
        QualifiedNameView { namespace_index: self.namespace_index, name: self.name@ }
    }
}

impl BinaryEncoder for QualifiedName {
    open spec fn encoding(v: QualifiedNameView) -> Seq<u8> {
        <u16 as BinaryEncoder>::encoding(v.namespace_index) + UaString::encoding(v.name)
    }

    open spec fn parse(s: Seq<u8>) -> Parsed<QualifiedNameView> {
        match <u16 as BinaryEncoder>::parse(s) {
            Err(e) => Err(e),
            Ok((ns, n1)) => match UaString::parse(s.skip(n1 as int)) {
                Err(e) => Err(e),
                Ok((name, n2)) => Ok((QualifiedNameView { namespace_index: ns, name }, n1 + n2)),
            },
        }
    }

    open spec fn in_limits(v: QualifiedNameView) -> bool {
        UaString::in_limits(v.name)
    }

    proof fn lemma_round_trip(v: QualifiedNameView, rest: Seq<u8>) {
        let e1 = <u16 as BinaryEncoder>::encoding(v.namespace_index);
        let e2 = UaString::encoding(v.name);
        assert(e1 + e2 + rest =~= e1 + (e2 + rest));
        <u16 as BinaryEncoder>::lemma_round_trip(v.namespace_index, e2 + rest);
        lemma_skip_concat(e1, e2 + rest);
        UaString::lemma_round_trip(v.name, rest);
    }

    proof fn lemma_parse_len(s: Seq<u8>) {
        UaString::lemma_parse_len(s.skip(2));
    }

    fn byte_len(&self) -> usize {
        2 + self.name.byte_len()
    }

    fn encode(&self, buf: &mut Vec<u8>) -> Result<usize, StatusCode> {
        let n1 = match self.namespace_index.encode(buf) {
            Ok(n) => n,
            Err(e) => return Err(e),
        };
        match self.name.encode(buf) {
            Ok(n2) => {
                assert(buf@ =~= old(buf)@ + Self::encoding(self@));
                Ok(n1 + n2)
            },
            Err(e) => Err(e),
        }
    }

    fn decode(data: &[u8], pos: usize) -> Result<(QualifiedName, usize), StatusCode> {
        let ghost s = data@.skip(pos as int);
        let (namespace_index, p1) = match <u16 as BinaryEncoder>::decode(data, pos) {
            Ok(x) => x,
            Err(e) => return Err(e),
        };
        assert(s.skip(p1 - pos) =~= data@.skip(p1 as int));
        let (name, p2) = match UaString::decode(data, p1) {
            Ok(x) => x,
            Err(e) => return Err(e),
        };
        Ok((QualifiedName { namespace_index, name }, p2))
    }
}

// ---------------------------------------------------------------- LocalizedText

/// A string field that an encoding mask marks present exactly when it is not null.
pub open spec fn str_if_present(v: Option<Seq<u8>>) -> Seq<u8> {
    match v {
        Some(_) => UaString::encoding(v),
        None => seq![],
    }
}

pub open spec fn parse_str_if(present: bool, s: Seq<u8>) -> Parsed<Option<Seq<u8>>> {
    if present {
        UaString::parse(s)
    } else {
        Ok((None, 0))
    }
}

pub proof fn lemma_str_if_round_trip(v: Option<Seq<u8>>, rest: Seq<u8>)
    requires
        UaString::in_limits(v),
    ensures
        parse_str_if(v is Some, str_if_present(v) + rest) == Ok::<
            (Option<Seq<u8>>, nat),
            StatusCode,
        >((v, str_if_present(v).len())),
{
    if v is Some {
        UaString::lemma_round_trip(v, rest);
    } else {
        assert(seq![] + rest =~= rest);
    }
}

pub fn write_str_if_present(buf: &mut Vec<u8>, v: &UaString) -> (r: Result<usize, StatusCode>)
    requires
        old(buf)@.len() + str_if_present(v@).len() <= usize::MAX,
    ensures
        encoded_as(r, old(buf)@, final(buf)@, str_if_present(v@), UaString::in_limits(v@)),
{
    if v.is_null() {
        assert(buf@ =~= old(buf)@ + seq![]);
        Ok(0)
    } else {
        v.encode(buf)
    }
}

pub fn read_str_if(data: &[u8], pos: usize, present: bool) -> (r: Result<
    (UaString, usize),
    StatusCode,
>)
    requires
        pos <= data@.len(),
    ensures
        decoded_as(r, parse_str_if(present, data@.skip(pos as int)), pos),
        r matches Ok((_, end)) ==> end <= data@.len(),
{
    if present {
        UaString::decode(data, pos)
    } else {
        Ok((UaString::null(), pos))
    }
}

/// Text with a locale; each part is written only when it is not null.
#[derive(Debug, Clone, PartialEq, Eq)]
pub struct LocalizedText {
    pub locale: UaString,
    pub text: UaString,
}

pub struct LocalizedTextView {
    pub locale: Option<Seq<u8>>,
    pub text: Option<Seq<u8>>,
}

impl View for LocalizedText {
    type V = LocalizedTextView;

    open spec fn view(&self) -> LocalizedTextView {
        LocalizedTextView { locale: self.locale@, text: self.text@ }
    }
}

impl LocalizedText {
    /// The given locale and text.
    pub fn new(locale: &str, text: &str) -> (r: LocalizedText)
        ensures
            r@.locale == Some(locale.spec_bytes()),
            r@.text == Some(text.spec_bytes()),
    {
        LocalizedText { locale: UaString::from_str(locale), text: UaString::from_str(text) }
    }
}

pub open spec fn localized_text_mask(v: LocalizedTextView) -> u8 {
    mask_of(v.locale is Some, v.text is Some, false, false, false, false)
}

impl BinaryEncoder for LocalizedText {
    open spec fn encoding(v: LocalizedTextView) -> Seq<u8> {
        seq![localized_text_mask(v)] + str_if_present(v.locale) + str_if_present(v.text)
    }

    open spec fn parse(s: Seq<u8>) -> Parsed<LocalizedTextView> {
        match parse_u8(s) {
            Err(e) => Err(e),
            Ok((mask, _)) => match parse_str_if(mask_bit(mask, 0), s.skip(1)) {
                Err(e) => Err(e),
                Ok((locale, n1)) => match parse_str_if(mask_bit(mask, 1), s.skip(1 + n1 as int)) {
                    Err(e) => Err(e),
                    Ok((text, n2)) => Ok((LocalizedTextView { locale, text }, 1 + n1 + n2)),
                },
            },
        }
    }

    open spec fn in_limits(v: LocalizedTextView) -> bool {
        UaString::in_limits(v.locale) && UaString::in_limits(v.text)
    }

    proof fn lemma_round_trip(v: LocalizedTextView, rest: Seq<u8>) {
        let m = localized_text_mask(v);
        let e1 = str_if_present(v.locale);
        let e2 = str_if_present(v.text);
        let s = seq![m] + e1 + e2 + rest;
        assert(s[0] == m);
        lemma_mask_of(v.locale is Some, v.text is Some, false, false, false, false);
        assert(s.skip(1) =~= e1 + (e2 + rest));
        lemma_str_if_round_trip(v.locale, e2 + rest);
        assert(s.skip(1 + e1.len() as int) =~= e2 + rest);
        lemma_str_if_round_trip(v.text, rest);
    }

    proof fn lemma_parse_len(s: Seq<u8>) {
        if s.len() >= 1 {
            UaString::lemma_parse_len(s.skip(1));
            if let Ok((_, n1)) = parse_str_if(mask_bit(s[0], 0), s.skip(1)) {
                UaString::lemma_parse_len(s.skip(1 + n1 as int));
            }
        }
    }

    fn byte_len(&self) -> usize {
        let a: usize = if self.locale.is_null() {
            0
        } else {
            self.locale.byte_len()
        };
        let b: usize = if self.text.is_null() {
            0
        } else {
            self.text.byte_len()
        };
        1 + a + b
    }

    fn encode(&self, buf: &mut Vec<u8>) -> Result<usize, StatusCode> {
        let m: u8 = mask_byte(
            !self.locale.is_null(),
            !self.text.is_null(),
            false,
            false,
            false,
            false,
        );
        write_u8(buf, m);
        let n1 = match write_str_if_present(buf, &self.locale) {
            Ok(n) => n,
            Err(e) => return Err(e),
        };
        match write_str_if_present(buf, &self.text) {
            Ok(n2) => {
                assert(buf@ =~= old(buf)@ + Self::encoding(self@));
                Ok(1 + n1 + n2)
            },
            Err(e) => Err(e),
        }
    }

    fn decode(data: &[u8], pos: usize) -> Result<(LocalizedText, usize), StatusCode> {
        let ghost s = data@.skip(pos as int);
        let (m, p1) = match read_u8(data, pos) {
            Ok(x) => x,
            Err(e) => return Err(e),
        };
        assert(s.skip(1) =~= data@.skip(p1 as int));
        let (locale, p2) = match read_str_if(data, p1, test_bit(m, 0)) {
            Ok(x) => x,
            Err(e) => return Err(e),
        };
        assert(s.skip(p2 - pos) =~= data@.skip(p2 as int));
        let (text, p3) = match read_str_if(data, p2, test_bit(m, 1)) {
            Ok(x) => x,
            Err(e) => return Err(e),
        };
        Ok((LocalizedText { locale, text }, p3))
    }
}

} // verus!
