use opcua_server::basic::{LocalizedText, QualifiedName};
use opcua_server::codec::BinaryEncoder;
use opcua_server::node_id::{Guid, Identifier, NodeId};
use opcua_server::records::{Argument, ContentFilterElementResult, DiagnosticInfo, FilterOperand};
use opcua_server::status::StatusCode;
use opcua_server::string::{ByteString, UaString};

fn round_trip<T: BinaryEncoder + PartialEq + std::fmt::Debug>(v: &T) -> Vec<u8> {
    let mut buf = Vec::new();
    let n = v.encode(&mut buf).unwrap();
    assert_eq!(n, buf.len());
    assert_eq!(v.byte_len(), buf.len());
    let (back, end) = T::decode(&buf, 0).unwrap();
    assert_eq!(&back, v);
    assert_eq!(end, buf.len());
    buf
}

#[test]
fn u32_is_little_endian() {
    let buf = round_trip(&0x1234_5678u32);
    assert_eq!(buf, vec![0x78, 0x56, 0x34, 0x12]);
}

#[test]
fn negative_i32_round_trips() {
    let buf = round_trip(&-2i32);
    assert_eq!(buf, vec![0xfe, 0xff, 0xff, 0xff]);
}

#[test]
fn date_time_round_trips() {
    let buf = round_trip(&131_000_000_000_000_000i64);
    assert_eq!(buf.len(), 8);
}

#[test]
fn null_string_is_minus_one() {
    let buf = round_trip(&UaString::null());
    assert_eq!(buf, vec![0xff, 0xff, 0xff, 0xff]);
}

#[test]
fn string_has_length_prefix() {
    let buf = round_trip(&UaString::from_str("abc"));
    assert_eq!(buf, vec![3, 0, 0, 0, b'a', b'b', b'c']);
}

#[test]
fn byte_string_round_trips() {
    round_trip(&ByteString { value: Some(vec![0, 1, 2, 255]) });
}

#[test]
fn string_over_limit_fails_to_encode() {
    let s = UaString { value: Some(vec![b'x'; 65537]) };
    let mut buf = Vec::new();
    assert_eq!(s.encode(&mut buf), Err(StatusCode::BadEncodingLimitsExceeded));
}

#[test]
fn string_length_over_limit_fails_to_decode() {
    let buf = vec![0x01, 0x00, 0x01, 0x00];
    assert_eq!(UaString::decode(&buf, 0), Err(StatusCode::BadEncodingLimitsExceeded));
}

#[test]
fn short_input_is_decoding_error() {
    let buf = vec![5, 0, 0, 0, b'a'];
    assert_eq!(UaString::decode(&buf, 0), Err(StatusCode::BadDecodingError));
    assert_eq!(u32::decode(&[1, 2, 3], 0), Err(StatusCode::BadDecodingError));
}

#[test]
fn node_id_two_byte_form() {
    let buf = round_trip(&NodeId::new_numeric(0, 5));
    assert_eq!(buf, vec![0, 5]);
}

#[test]
fn node_id_four_byte_form() {
    let buf = round_trip(&NodeId::new_numeric(0, 2258));
    assert_eq!(buf, vec![1, 0, 0xd2, 0x08]);
}

#[test]
fn node_id_numeric_form() {
    let buf = round_trip(&NodeId::new_numeric(300, 70000));
    assert_eq!(buf, vec![2, 0x2c, 0x01, 0x70, 0x11, 0x01, 0x00]);
}

#[test]
fn node_id_string_and_guid_forms() {
    let s = NodeId { namespace: 2, identifier: Identifier::String(UaString::from_str("pump")) };
    let buf = round_trip(&s);
    assert_eq!(buf[0], 3);
    let g = NodeId { namespace: 1, identifier: Identifier::Guid(Guid { bytes: (0u8..16).collect() }) };
    let buf = round_trip(&g);
    assert_eq!(buf.len(), 19);
}

#[test]
fn node_id_invalid_tag_is_type_mismatch() {
    assert_eq!(NodeId::decode(&[9, 0, 0], 0), Err(StatusCode::BadTypeMismatch));
}

#[test]
fn localized_text_omits_null_parts() {
    let t = LocalizedText { locale: UaString::null(), text: UaString::from_str("hi") };
    let buf = round_trip(&t);
    assert_eq!(buf, vec![2, 2, 0, 0, 0, b'h', b'i']);
    round_trip(&LocalizedText::new("en", "hello"));
}

#[test]
fn qualified_name_round_trips() {
    round_trip(&QualifiedName { namespace_index: 3, name: UaString::from_str("Name") });
}

#[test]
fn argument_round_trips() {
    let a = Argument {
        name: UaString::from_str("speed"),
        data_type: NodeId::new_numeric(0, 11),
        value_rank: -1,
        array_dimensions: Some(vec![2, 3]),
        description: LocalizedText::new("en", "the speed"),
    };
    round_trip(&a);
    let b = Argument {
        name: UaString::null(),
        data_type: NodeId::new_numeric(0, 1),
        value_rank: 1,
        array_dimensions: None,
        description: LocalizedText { locale: UaString::null(), text: UaString::null() },
    };
    let buf = round_trip(&b);
    assert_eq!(buf, vec![0xff, 0xff, 0xff, 0xff, 0, 1, 1, 0, 0, 0, 0xff, 0xff, 0xff, 0xff, 0]);
}

#[test]
fn array_over_limit_fails() {
    let a = Argument {
        name: UaString::null(),
        data_type: NodeId::new_numeric(0, 1),
        value_rank: 1,
        array_dimensions: Some(vec![0; 1001]),
        description: LocalizedText { locale: UaString::null(), text: UaString::null() },
    };
    let mut buf = Vec::new();
    assert_eq!(a.encode(&mut buf), Err(StatusCode::BadEncodingLimitsExceeded));
}

#[test]
fn filter_operand_is_empty() {
    let buf = round_trip(&FilterOperand {});
    assert!(buf.is_empty());
}

#[test]
fn content_filter_element_result_round_trips() {
    let d = DiagnosticInfo {
        symbolic_id: Some(4),
        namespace_uri: None,
        localized_text: Some(7),
        locale: Some(1),
        additional_info: Some(UaString::from_str("more")),
        inner_status_code: Some(0x8000_0000),
    };
    let r = ContentFilterElementResult {
        status_code: 0,
        operand_status_codes: Some(vec![1, 2, 3]),
        operand_diagnostic_infos: Some(vec![d, DiagnosticInfo::null()]),
    };
    round_trip(&r);
    let empty = ContentFilterElementResult {
        status_code: 5,
        operand_status_codes: None,
        operand_diagnostic_infos: None,
    };
    let buf = round_trip(&empty);
    assert_eq!(buf, vec![5, 0, 0, 0, 0xff, 0xff, 0xff, 0xff, 0xff, 0xff, 0xff, 0xff]);
}

#[test]
fn diagnostic_mask_matches_fields() {
    let d = DiagnosticInfo {
        symbolic_id: Some(1),
        namespace_uri: None,
        localized_text: None,
        locale: Some(2),
        additional_info: None,
        inner_status_code: None,
    };
    let buf = round_trip(&d);
    assert_eq!(buf, vec![0x09, 1, 0, 0, 0, 2, 0, 0, 0]);
    assert_eq!(DiagnosticInfo::decode(&[0x40], 0), Err(StatusCode::BadDecodingError));
}
