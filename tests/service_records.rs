use opcua_server::basic::{LocalizedText, QualifiedName};
use opcua_server::codec::BinaryEncoder;
use opcua_server::endpoints::{
    ApplicationDescription, ApplicationType, MessageSecurityMode, ResponseHeader,
    UserTokenPolicy, UserTokenType,
};
use opcua_server::node_id::NodeId;
use opcua_server::records::DiagnosticInfo;
use opcua_server::service_types::{
    ContentFilter, ContentFilterElement, ExtensionObject, ExtensionObjectBody, FilterOperator,
    ReadRequest, ReadValueId, RequestHeader, TimestampsToReturn,
};
use opcua_server::status::StatusCode;
use opcua_server::string::{ByteString, UaString};

fn check<T: BinaryEncoder + PartialEq + std::fmt::Debug>(v: &T) -> Vec<u8> {
    let mut buf = Vec::new();
    let n = v.encode(&mut buf).unwrap();
    assert_eq!(n, buf.len());
    assert_eq!(v.byte_len(), n);
    let (back, end) = T::decode(&buf, 0).unwrap();
    assert_eq!(&back, v);
    assert_eq!(end, n);
    buf
}

fn no_extension() -> ExtensionObject {
    ExtensionObject { node_id: NodeId::new_numeric(0, 0), body: ExtensionObjectBody::Empty }
}

fn request_header() -> RequestHeader {
    RequestHeader {
        authentication_token: NodeId::new_numeric(0, 0),
        timestamp: 131_500_000_000_000_000,
        request_handle: 17,
        return_diagnostics: 0,
        audit_entry_id: UaString::null(),
        timeout_hint: 10_000,
        additional_header: no_extension(),
    }
}

#[test]
fn read_request_round_trips() {
    let r = ReadRequest {
        request_header: request_header(),
        max_age: 0,
        timestamps_to_return: TimestampsToReturn::Both,
        nodes_to_read: Some(vec![ReadValueId {
            node_id: NodeId::new_numeric(0, 2258),
            attribute_id: 13,
            index_range: UaString::null(),
            data_encoding: QualifiedName { namespace_index: 0, name: UaString::null() },
        }]),
    };
    check(&r);
}

#[test]
fn timestamps_out_of_range_is_decoding_error() {
    assert_eq!(TimestampsToReturn::decode(&[9, 0, 0, 0], 0), Err(StatusCode::BadDecodingError));
    let buf = check(&TimestampsToReturn::Neither);
    assert_eq!(buf, vec![3, 0, 0, 0]);
}

#[test]
fn content_filter_round_trips() {
    let f = ContentFilter {
        elements: Some(vec![
            ContentFilterElement {
                filter_operator: FilterOperator::Equals,
                filter_operands: Some(vec![
                    no_extension(),
                    ExtensionObject {
                        node_id: NodeId::new_numeric(0, 597),
                        body: ExtensionObjectBody::ByteString(ByteString { value: Some(vec![1, 2, 3]) }),
                    },
                ]),
            },
            ContentFilterElement { filter_operator: FilterOperator::BitwiseOr, filter_operands: None },
        ]),
    };
    check(&f);
    let empty = check(&ContentFilter { elements: None });
    assert_eq!(empty, vec![0xff, 0xff, 0xff, 0xff]);
}

#[test]
fn extension_object_bad_encoding_byte() {
    assert_eq!(ExtensionObject::decode(&[0, 0, 7], 0), Err(StatusCode::BadDecodingError));
    let x = ExtensionObject { node_id: NodeId::new_numeric(0, 1), body: ExtensionObjectBody::XmlElement(UaString::from_str("<a/>")) };
    check(&x);
}

#[test]
fn endpoint_parts_round_trip() {
    let server = ApplicationDescription {
        application_uri: UaString::from_str("urn:server"),
        product_uri: UaString::from_str("urn:product"),
        application_name: LocalizedText::new("", "Server"),
        application_type: ApplicationType::Server,
        gateway_server_uri: UaString::null(),
        discovery_profile_uri: UaString::null(),
        discovery_urls: Some(vec![UaString::from_str("opc.tcp://127.0.0.1:4840/")]),
    };
    check(&server);
    let policy = UserTokenPolicy {
        policy_id: UaString::from_str("anonymous"),
        token_type: UserTokenType::Anonymous,
        issued_token_type: UaString::null(),
        issuer_endpoint_url: UaString::null(),
        security_policy_uri: UaString::null(),
    };
    check(&policy);
    let header = ResponseHeader {
        timestamp: 5,
        request_handle: 17,
        service_result: 0,
        service_diagnostics: DiagnosticInfo::null(),
        string_table: Some(vec![UaString::from_str("a"), UaString::null()]),
        additional_header: no_extension(),
    };
    check(&header);
    assert_eq!(check(&MessageSecurityMode::SignAndEncrypt), vec![3, 0, 0, 0]);
}
