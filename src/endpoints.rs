//! The response header, and the descriptions of applications and user token policies
//! that endpoint listings carry.
use vstd::prelude::*;
use crate::array::{
    array_encoding, array_in_limits, parse_array, opt_vec_view, lemma_array_round_trip,
    lemma_array_parse_len, byte_len_array, write_array, read_array,
};
use crate::basic::{LocalizedText, LocalizedTextView};
use crate::codec::{
    BinaryEncoder, Parsed, le_u32, parse_u32, lemma_parse_u32_round_trip, write_u32, read_u32,
};
use crate::node_id::{lemma_skip_concat, lemma_assoc, lemma_skip_skip};
use crate::records::{DiagnosticInfo, DiagnosticInfoView};
use crate::service_types::{ExtensionObject, ExtensionObjectView};
use crate::string::UaString;
use crate::status::StatusCode;

verus! {

/// How an endpoint protects its messages.
#[derive(Debug, Clone, Copy, PartialEq, Eq, Structural)]
pub enum MessageSecurityMode {
    Invalid,
    NoSecurity,
    Sign,
    SignAndEncrypt,
}

impl View for MessageSecurityMode {
    type V = MessageSecurityMode;

    open spec fn view(&self) -> MessageSecurityMode {
        *self
    }
}

/// The wire value of each MessageSecurityMode.
pub open spec fn message_security_mode_value(v: MessageSecurityMode) -> i32 {
    match v {
        MessageSecurityMode::Invalid => 0,
        MessageSecurityMode::NoSecurity => 1,
        MessageSecurityMode::Sign => 2,
        MessageSecurityMode::SignAndEncrypt => 3,
    }
}

pub open spec fn message_security_mode_of(x: i32) -> Option<MessageSecurityMode> {
    if x == 0 {
        Some(MessageSecurityMode::Invalid)
    } else if x == 1 {
        Some(MessageSecurityMode::NoSecurity)
    } else if x == 2 {
        Some(MessageSecurityMode::Sign)
    } else if x == 3 {
        Some(MessageSecurityMode::SignAndEncrypt)
    } else {
        None
    }
}

impl BinaryEncoder for MessageSecurityMode {
    open spec fn encoding(v: MessageSecurityMode) -> Seq<u8> {
        le_u32(message_security_mode_value(v) as u32)
    }

    open spec fn parse(s: Seq<u8>) -> Parsed<MessageSecurityMode> {
        match parse_u32(s) {
            Err(e) => Err(e),
            Ok((x, n)) => match message_security_mode_of(x as i32) {
                Some(t) => Ok((t, n)),
                None => Err(StatusCode::BadDecodingError),
            },
        }
    }

    open spec fn in_limits(v: MessageSecurityMode) -> bool {
        true
    }

    proof fn lemma_round_trip(v: MessageSecurityMode, rest: Seq<u8>) {
        let x = message_security_mode_value(v);
        lemma_parse_u32_round_trip(x as u32, rest);
        assert(((x as u32) as i32) == x) by (bit_vector);
    }

    proof fn lemma_parse_len(s: Seq<u8>) {
    }

    fn byte_len(&self) -> usize {
        4
    }

    #[verifier::spinoff_prover]
    #[verifier::rlimit(100)]
    fn encode(&self, buf: &mut Vec<u8>) -> Result<usize, StatusCode> {
        let x: i32 = match self {
            MessageSecurityMode::Invalid => 0,
            MessageSecurityMode::NoSecurity => 1,
            MessageSecurityMode::Sign => 2,
            MessageSecurityMode::SignAndEncrypt => 3,
        };
        write_u32(buf, x as u32);
        Ok(4)
    }

    #[verifier::spinoff_prover]
    #[verifier::rlimit(100)]
    fn decode(data: &[u8], pos: usize) -> Result<(MessageSecurityMode, usize), StatusCode> {
        let (x, end) = match read_u32(data, pos) {
            Ok(r) => r,
            Err(e) => return Err(e),
        };
        let v = match x as i32 {
            0 => MessageSecurityMode::Invalid,
            1 => MessageSecurityMode::NoSecurity,
            2 => MessageSecurityMode::Sign,
            3 => MessageSecurityMode::SignAndEncrypt,
            _ => return Err(StatusCode::BadDecodingError),
        };
        Ok((v, end))
    }
}

/// What kind of application an endpoint belongs to.
#[derive(Debug, Clone, Copy, PartialEq, Eq, Structural)]
pub enum ApplicationType {
    Server,
    Client,
    ClientAndServer,
    DiscoveryServer,
}

impl View for ApplicationType {
    type V = ApplicationType;

    open spec fn view(&self) -> ApplicationType {
        *self
    }
}

/// The wire value of each ApplicationType.
pub open spec fn application_type_value(v: ApplicationType) -> i32 {
    match v {
        ApplicationType::Server => 0,
        ApplicationType::Client => 1,
        ApplicationType::ClientAndServer => 2,
        ApplicationType::DiscoveryServer => 3,
    }
}

pub open spec fn application_type_of(x: i32) -> Option<ApplicationType> {
    if x == 0 {
        Some(ApplicationType::Server)
    } else if x == 1 {
        Some(ApplicationType::Client)
    } else if x == 2 {
        Some(ApplicationType::ClientAndServer)
    } else if x == 3 {
        Some(ApplicationType::DiscoveryServer)
    } else {
        None
    }
}

impl BinaryEncoder for ApplicationType {
    open spec fn encoding(v: ApplicationType) -> Seq<u8> {
        le_u32(application_type_value(v) as u32)
    }

    open spec fn parse(s: Seq<u8>) -> Parsed<ApplicationType> {
        match parse_u32(s) {
            Err(e) => Err(e),
            Ok((x, n)) => match application_type_of(x as i32) {
                Some(t) => Ok((t, n)),
                None => Err(StatusCode::BadDecodingError),
            },
        }
    }

    open spec fn in_limits(v: ApplicationType) -> bool {
        true
    }

    proof fn lemma_round_trip(v: ApplicationType, rest: Seq<u8>) {
        let x = application_type_value(v);
        lemma_parse_u32_round_trip(x as u32, rest);
        assert(((x as u32) as i32) == x) by (bit_vector);
    }

    proof fn lemma_parse_len(s: Seq<u8>) {
    }

    fn byte_len(&self) -> usize {
        4
    }

    #[verifier::spinoff_prover]
    #[verifier::rlimit(100)]
    fn encode(&self, buf: &mut Vec<u8>) -> Result<usize, StatusCode> {
        let x: i32 = match self {
            ApplicationType::Server => 0,
            ApplicationType::Client => 1,
            ApplicationType::ClientAndServer => 2,
            ApplicationType::DiscoveryServer => 3,
        };
        write_u32(buf, x as u32);
        Ok(4)
    }

    #[verifier::spinoff_prover]
    #[verifier::rlimit(100)]
    fn decode(data: &[u8], pos: usize) -> Result<(ApplicationType, usize), StatusCode> {
        let (x, end) = match read_u32(data, pos) {
            Ok(r) => r,
            Err(e) => return Err(e),
        };
        let v = match x as i32 {
            0 => ApplicationType::Server,
            1 => ApplicationType::Client,
            2 => ApplicationType::ClientAndServer,
            3 => ApplicationType::DiscoveryServer,
            _ => return Err(StatusCode::BadDecodingError),
        };
        Ok((v, end))
    }
}

/// The kind of identity a user token carries.
#[derive(Debug, Clone, Copy, PartialEq, Eq, Structural)]
pub enum UserTokenType {
    Anonymous,
    UserName,
    Certificate,
    IssuedToken,
}

impl View for UserTokenType {
    type V = UserTokenType;

    open spec fn view(&self) -> UserTokenType {
        *self
    }
}

/// The wire value of each UserTokenType.
pub open spec fn user_token_type_value(v: UserTokenType) -> i32 {
    match v {
        UserTokenType::Anonymous => 0,
        UserTokenType::UserName => 1,
        UserTokenType::Certificate => 2,
        UserTokenType::IssuedToken => 3,
    }
}

pub open spec fn user_token_type_of(x: i32) -> Option<UserTokenType> {
    if x == 0 {
        Some(UserTokenType::Anonymous)
    } else if x == 1 {
        Some(UserTokenType::UserName)
    } else if x == 2 {
        Some(UserTokenType::Certificate)
    } else if x == 3 {
        Some(UserTokenType::IssuedToken)
    } else {
        None
    }
}

impl BinaryEncoder for UserTokenType {
    open spec fn encoding(v: UserTokenType) -> Seq<u8> {
        le_u32(user_token_type_value(v) as u32)
    }

    open spec fn parse(s: Seq<u8>) -> Parsed<UserTokenType> {
        match parse_u32(s) {
            Err(e) => Err(e),
            Ok((x, n)) => match user_token_type_of(x as i32) {
                Some(t) => Ok((t, n)),
                None => Err(StatusCode::BadDecodingError),
            },
        }
    }

    open spec fn in_limits(v: UserTokenType) -> bool {
        true
    }

    proof fn lemma_round_trip(v: UserTokenType, rest: Seq<u8>) {
        let x = user_token_type_value(v);
        lemma_parse_u32_round_trip(x as u32, rest);
        assert(((x as u32) as i32) == x) by (bit_vector);
    }

    proof fn lemma_parse_len(s: Seq<u8>) {
    }

    fn byte_len(&self) -> usize {
        4
    }

    #[verifier::spinoff_prover]
    #[verifier::rlimit(100)]
    fn encode(&self, buf: &mut Vec<u8>) -> Result<usize, StatusCode> {
        let x: i32 = match self {
            UserTokenType::Anonymous => 0,
            UserTokenType::UserName => 1,
            UserTokenType::Certificate => 2,
            UserTokenType::IssuedToken => 3,
        };
        write_u32(buf, x as u32);
        Ok(4)
    }

    #[verifier::spinoff_prover]
    #[verifier::rlimit(100)]
    fn decode(data: &[u8], pos: usize) -> Result<(UserTokenType, usize), StatusCode> {
        let (x, end) = match read_u32(data, pos) {
            Ok(r) => r,
            Err(e) => return Err(e),
        };
        let v = match x as i32 {
            0 => UserTokenType::Anonymous,
            1 => UserTokenType::UserName,
            2 => UserTokenType::Certificate,
            3 => UserTokenType::IssuedToken,
            _ => return Err(StatusCode::BadDecodingError),
        };
        Ok((v, end))
    }
}

/// The header of every service response.
#[derive(Debug, Clone, PartialEq, Eq)]
pub struct ResponseHeader {
    pub timestamp: i64,
    pub request_handle: u32,
    pub service_result: u32,
    pub service_diagnostics: DiagnosticInfo,
    pub string_table: Option<Vec<UaString>>,
    pub additional_header: ExtensionObject,
}

pub struct ResponseHeaderView {
    pub timestamp: i64,
    pub request_handle: u32,
    pub service_result: u32,
    pub service_diagnostics: DiagnosticInfoView,
    pub string_table: Option<Seq<Option<Seq<u8>>>>,
    pub additional_header: ExtensionObjectView,
}

impl View for ResponseHeader {
    type V = ResponseHeaderView;

    open spec fn view(&self) -> ResponseHeaderView {
        ResponseHeaderView {
            timestamp: self.timestamp,
            request_handle: self.request_handle,
            service_result: self.service_result,
            service_diagnostics: self.service_diagnostics@,
            string_table: opt_vec_view(&self.string_table),
            additional_header: self.additional_header@,
        }
    }
}

impl BinaryEncoder for ResponseHeader {
    open spec fn encoding(v: ResponseHeaderView) -> Seq<u8> {
        <i64 as BinaryEncoder>::encoding(v.timestamp) + <u32 as BinaryEncoder>::encoding(v.request_handle) + <u32 as BinaryEncoder>::encoding(v.service_result) + <DiagnosticInfo as BinaryEncoder>::encoding(v.service_diagnostics) + array_encoding::<UaString>(v.string_table) + <ExtensionObject as BinaryEncoder>::encoding(v.additional_header)
    }

    open spec fn parse(s1: Seq<u8>) -> Parsed<ResponseHeaderView> {
        match <i64 as BinaryEncoder>::parse(s1) {
            Err(e) => Err(e),
            Ok((timestamp, n1)) => {
                let s2 = s1.skip(n1 as int);
                match <u32 as BinaryEncoder>::parse(s2) {
                    Err(e) => Err(e),
                    Ok((request_handle, n2)) => {
                        let s3 = s2.skip(n2 as int);
                        match <u32 as BinaryEncoder>::parse(s3) {
                            Err(e) => Err(e),
                            Ok((service_result, n3)) => {
                                let s4 = s3.skip(n3 as int);
                                match <DiagnosticInfo as BinaryEncoder>::parse(s4) {
                                    Err(e) => Err(e),
                                    Ok((service_diagnostics, n4)) => {
                                        let s5 = s4.skip(n4 as int);
                                        match parse_array::<UaString>(s5) {
                                            Err(e) => Err(e),
                                            Ok((string_table, n5)) => {
                                                let s6 = s5.skip(n5 as int);
                                                match <ExtensionObject as BinaryEncoder>::parse(s6) {
                                                    Err(e) => Err(e),
                                                    Ok((additional_header, n6)) => {
                                                        Ok((ResponseHeaderView { timestamp, request_handle, service_result, service_diagnostics, string_table, additional_header }, n1 + n2 + n3 + n4 + n5 + n6))
                                                    },
                                                }
                                            },
                                        }
                                    },
                                }
                            },
                        }
                    },
                }
            },
        }
    }

    open spec fn in_limits(v: ResponseHeaderView) -> bool {
        <i64 as BinaryEncoder>::in_limits(v.timestamp) && <u32 as BinaryEncoder>::in_limits(v.request_handle) && <u32 as BinaryEncoder>::in_limits(v.service_result) && <DiagnosticInfo as BinaryEncoder>::in_limits(v.service_diagnostics) && array_in_limits::<UaString>(v.string_table) && <ExtensionObject as BinaryEncoder>::in_limits(v.additional_header)
    }

    proof fn lemma_round_trip(v: ResponseHeaderView, rest: Seq<u8>) {
        let e1 = <i64 as BinaryEncoder>::encoding(v.timestamp);
        let e2 = <u32 as BinaryEncoder>::encoding(v.request_handle);
        let e3 = <u32 as BinaryEncoder>::encoding(v.service_result);
        let e4 = <DiagnosticInfo as BinaryEncoder>::encoding(v.service_diagnostics);
        let e5 = array_encoding::<UaString>(v.string_table);
        let e6 = <ExtensionObject as BinaryEncoder>::encoding(v.additional_header);
        let t6 = rest;
        let t5 = e6 + t6;
        let t4 = e5 + t5;
        let t3 = e4 + t4;
        let t2 = e3 + t3;
        let t1 = e2 + t2;
        lemma_assoc(e1 + e2 + e3 + e4 + e5, e6, t6);
        lemma_assoc(e1 + e2 + e3 + e4, e5, t5);
        lemma_assoc(e1 + e2 + e3, e4, t4);
        lemma_assoc(e1 + e2, e3, t3);
        lemma_assoc(e1, e2, t2);
        <i64 as BinaryEncoder>::lemma_round_trip(v.timestamp, t1);
        lemma_skip_concat(e1, t1);
        <u32 as BinaryEncoder>::lemma_round_trip(v.request_handle, t2);
        lemma_skip_concat(e2, t2);
        <u32 as BinaryEncoder>::lemma_round_trip(v.service_result, t3);
        lemma_skip_concat(e3, t3);
        <DiagnosticInfo as BinaryEncoder>::lemma_round_trip(v.service_diagnostics, t4);
        lemma_skip_concat(e4, t4);
        lemma_array_round_trip::<UaString>(v.string_table, t5);
        lemma_skip_concat(e5, t5);
        <ExtensionObject as BinaryEncoder>::lemma_round_trip(v.additional_header, t6);
    }

    proof fn lemma_parse_len(s1: Seq<u8>) {
        <i64 as BinaryEncoder>::lemma_parse_len(s1);
        if let Ok((_, n1)) = <i64 as BinaryEncoder>::parse(s1) {
            let s2 = s1.skip(n1 as int);
            <u32 as BinaryEncoder>::lemma_parse_len(s2);
            if let Ok((_, n2)) = <u32 as BinaryEncoder>::parse(s2) {
                let s3 = s2.skip(n2 as int);
                <u32 as BinaryEncoder>::lemma_parse_len(s3);
                if let Ok((_, n3)) = <u32 as BinaryEncoder>::parse(s3) {
                    let s4 = s3.skip(n3 as int);
                    <DiagnosticInfo as BinaryEncoder>::lemma_parse_len(s4);
                    if let Ok((_, n4)) = <DiagnosticInfo as BinaryEncoder>::parse(s4) {
                        let s5 = s4.skip(n4 as int);
                        lemma_array_parse_len::<UaString>(s5);
                        if let Ok((_, n5)) = parse_array::<UaString>(s5) {
                            let s6 = s5.skip(n5 as int);
                            <ExtensionObject as BinaryEncoder>::lemma_parse_len(s6);
                        }
                    }
                }
            }
        }
    }

    fn byte_len(&self) -> usize {
        self.timestamp.byte_len() + self.request_handle.byte_len() + self.service_result.byte_len() + self.service_diagnostics.byte_len() + byte_len_array(&self.string_table) + self.additional_header.byte_len()
    }

    #[verifier::spinoff_prover]
    #[verifier::rlimit(100)]
    fn encode(&self, buf: &mut Vec<u8>) -> Result<usize, StatusCode> {
        let n1 = match self.timestamp.encode(buf) {
            Ok(n) => n,
            Err(e) => return Err(e),
        };
        let n2 = match self.request_handle.encode(buf) {
            Ok(n) => n,
            Err(e) => return Err(e),
        };
        let n3 = match self.service_result.encode(buf) {
            Ok(n) => n,
            Err(e) => return Err(e),
        };
        let n4 = match self.service_diagnostics.encode(buf) {
            Ok(n) => n,
            Err(e) => return Err(e),
        };
        let n5 = match write_array(buf, &self.string_table) {
            Ok(n) => n,
            Err(e) => return Err(e),
        };
        let n6 = match self.additional_header.encode(buf) {
            Ok(n) => n,
            Err(e) => return Err(e),
        };
        proof {
            let v = self@;
            let o = old(buf)@;
            let e1 = <i64 as BinaryEncoder>::encoding(v.timestamp);
            let e2 = <u32 as BinaryEncoder>::encoding(v.request_handle);
            let e3 = <u32 as BinaryEncoder>::encoding(v.service_result);
            let e4 = <DiagnosticInfo as BinaryEncoder>::encoding(v.service_diagnostics);
            let e5 = array_encoding::<UaString>(v.string_table);
            let e6 = <ExtensionObject as BinaryEncoder>::encoding(v.additional_header);
            lemma_assoc(o, e1, e2);
            lemma_assoc(o, e1 + e2, e3);
            lemma_assoc(o, e1 + e2 + e3, e4);
            lemma_assoc(o, e1 + e2 + e3 + e4, e5);
            lemma_assoc(o, e1 + e2 + e3 + e4 + e5, e6);
        }
        Ok(n1 + n2 + n3 + n4 + n5 + n6)
    }

    #[verifier::spinoff_prover]
    #[verifier::rlimit(100)]
    fn decode(data: &[u8], pos: usize) -> Result<(ResponseHeader, usize), StatusCode> {
        let (timestamp, p1) = match <i64 as BinaryEncoder>::decode(data, pos) {
            Ok(x) => x,
            Err(e) => return Err(e),
        };
        proof {
            lemma_skip_skip(data@, pos as int, p1 - pos);
        }
        let (request_handle, p2) = match <u32 as BinaryEncoder>::decode(data, p1) {
            Ok(x) => x,
            Err(e) => return Err(e),
        };
        proof {
            lemma_skip_skip(data@, p1 as int, p2 - p1);
        }
        let (service_result, p3) = match <u32 as BinaryEncoder>::decode(data, p2) {
            Ok(x) => x,
            Err(e) => return Err(e),
        };
        proof {
            lemma_skip_skip(data@, p2 as int, p3 - p2);
        }
        let (service_diagnostics, p4) = match <DiagnosticInfo as BinaryEncoder>::decode(data, p3) {
            Ok(x) => x,
            Err(e) => return Err(e),
        };
        proof {
            lemma_skip_skip(data@, p3 as int, p4 - p3);
        }
        let (string_table, p5) = match read_array::<UaString>(data, p4) {
            Ok(x) => x,
            Err(e) => return Err(e),
        };
        proof {
            lemma_skip_skip(data@, p4 as int, p5 - p4);
        }
        let (additional_header, p6) = match <ExtensionObject as BinaryEncoder>::decode(data, p5) {
            Ok(x) => x,
            Err(e) => return Err(e),
        };
        Ok((ResponseHeader { timestamp, request_handle, service_result, service_diagnostics, string_table, additional_header }, p6))
    }
}

/// An application: its identity and where to discover it.
#[derive(Debug, Clone, PartialEq, Eq)]
pub struct ApplicationDescription {
    pub application_uri: UaString,
    pub product_uri: UaString,
    pub application_name: LocalizedText,
    pub application_type: ApplicationType,
    pub gateway_server_uri: UaString,
    pub discovery_profile_uri: UaString,
    pub discovery_urls: Option<Vec<UaString>>,
}

pub struct ApplicationDescriptionView {
    pub application_uri: Option<Seq<u8>>,
    pub product_uri: Option<Seq<u8>>,
    pub application_name: LocalizedTextView,
    pub application_type: ApplicationType,
    pub gateway_server_uri: Option<Seq<u8>>,
    pub discovery_profile_uri: Option<Seq<u8>>,
    pub discovery_urls: Option<Seq<Option<Seq<u8>>>>,
}

impl View for ApplicationDescription {
    type V = ApplicationDescriptionView;

    open spec fn view(&self) -> ApplicationDescriptionView {
        ApplicationDescriptionView {
            application_uri: self.application_uri@,
            product_uri: self.product_uri@,
            application_name: self.application_name@,
            application_type: self.application_type@,
            gateway_server_uri: self.gateway_server_uri@,
            discovery_profile_uri: self.discovery_profile_uri@,
            discovery_urls: opt_vec_view(&self.discovery_urls),
        }
    }
}

impl BinaryEncoder for ApplicationDescription {
    open spec fn encoding(v: ApplicationDescriptionView) -> Seq<u8> {
        <UaString as BinaryEncoder>::encoding(v.application_uri) + <UaString as BinaryEncoder>::encoding(v.product_uri) + <LocalizedText as BinaryEncoder>::encoding(v.application_name) + <ApplicationType as BinaryEncoder>::encoding(v.application_type) + <UaString as BinaryEncoder>::encoding(v.gateway_server_uri) + <UaString as BinaryEncoder>::encoding(v.discovery_profile_uri) + array_encoding::<UaString>(v.discovery_urls)
    }

    open spec fn parse(s1: Seq<u8>) -> Parsed<ApplicationDescriptionView> {
        match <UaString as BinaryEncoder>::parse(s1) {
            Err(e) => Err(e),
            Ok((application_uri, n1)) => {
                let s2 = s1.skip(n1 as int);
                match <UaString as BinaryEncoder>::parse(s2) {
                    Err(e) => Err(e),
                    Ok((product_uri, n2)) => {
                        let s3 = s2.skip(n2 as int);
                        match <LocalizedText as BinaryEncoder>::parse(s3) {
                            Err(e) => Err(e),
                            Ok((application_name, n3)) => {
                                let s4 = s3.skip(n3 as int);
                                match <ApplicationType as BinaryEncoder>::parse(s4) {
                                    Err(e) => Err(e),
                                    Ok((application_type, n4)) => {
                                        let s5 = s4.skip(n4 as int);
                                        match <UaString as BinaryEncoder>::parse(s5) {
                                            Err(e) => Err(e),
                                            Ok((gateway_server_uri, n5)) => {
                                                let s6 = s5.skip(n5 as int);
                                                match <UaString as BinaryEncoder>::parse(s6) {
                                                    Err(e) => Err(e),
                                                    Ok((discovery_profile_uri, n6)) => {
                                                        let s7 = s6.skip(n6 as int);
                                                        match parse_array::<UaString>(s7) {
                                                            Err(e) => Err(e),
                                                            Ok((discovery_urls, n7)) => {
                                                                Ok((ApplicationDescriptionView { application_uri, product_uri, application_name, application_type, gateway_server_uri, discovery_profile_uri, discovery_urls }, n1 + n2 + n3 + n4 + n5 + n6 + n7))
                                                            },
                                                        }
                                                    },
                                                }
                                            },
                                        }
                                    },
                                }
                            },
                        }
                    },
                }
            },
        }
    }

    open spec fn in_limits(v: ApplicationDescriptionView) -> bool {
        <UaString as BinaryEncoder>::in_limits(v.application_uri) && <UaString as BinaryEncoder>::in_limits(v.product_uri) && <LocalizedText as BinaryEncoder>::in_limits(v.application_name) && <ApplicationType as BinaryEncoder>::in_limits(v.application_type) && <UaString as BinaryEncoder>::in_limits(v.gateway_server_uri) && <UaString as BinaryEncoder>::in_limits(v.discovery_profile_uri) && array_in_limits::<UaString>(v.discovery_urls)
    }

    proof fn lemma_round_trip(v: ApplicationDescriptionView, rest: Seq<u8>) {
        let e1 = <UaString as BinaryEncoder>::encoding(v.application_uri);
        let e2 = <UaString as BinaryEncoder>::encoding(v.product_uri);
        let e3 = <LocalizedText as BinaryEncoder>::encoding(v.application_name);
        let e4 = <ApplicationType as BinaryEncoder>::encoding(v.application_type);
        let e5 = <UaString as BinaryEncoder>::encoding(v.gateway_server_uri);
        let e6 = <UaString as BinaryEncoder>::encoding(v.discovery_profile_uri);
        let e7 = array_encoding::<UaString>(v.discovery_urls);
        let t7 = rest;
        let t6 = e7 + t7;
        let t5 = e6 + t6;
        let t4 = e5 + t5;
        let t3 = e4 + t4;
        let t2 = e3 + t3;
        let t1 = e2 + t2;
        lemma_assoc(e1 + e2 + e3 + e4 + e5 + e6, e7, t7);
        lemma_assoc(e1 + e2 + e3 + e4 + e5, e6, t6);
        lemma_assoc(e1 + e2 + e3 + e4, e5, t5);
        lemma_assoc(e1 + e2 + e3, e4, t4);
        lemma_assoc(e1 + e2, e3, t3);
        lemma_assoc(e1, e2, t2);
        <UaString as BinaryEncoder>::lemma_round_trip(v.application_uri, t1);
        lemma_skip_concat(e1, t1);
        <UaString as BinaryEncoder>::lemma_round_trip(v.product_uri, t2);
        lemma_skip_concat(e2, t2);
        <LocalizedText as BinaryEncoder>::lemma_round_trip(v.application_name, t3);
        lemma_skip_concat(e3, t3);
        <ApplicationType as BinaryEncoder>::lemma_round_trip(v.application_type, t4);
        lemma_skip_concat(e4, t4);
        <UaString as BinaryEncoder>::lemma_round_trip(v.gateway_server_uri, t5);
        lemma_skip_concat(e5, t5);
        <UaString as BinaryEncoder>::lemma_round_trip(v.discovery_profile_uri, t6);
        lemma_skip_concat(e6, t6);
        lemma_array_round_trip::<UaString>(v.discovery_urls, t7);
    }

    proof fn lemma_parse_len(s1: Seq<u8>) {
        <UaString as BinaryEncoder>::lemma_parse_len(s1);
        if let Ok((_, n1)) = <UaString as BinaryEncoder>::parse(s1) {
            let s2 = s1.skip(n1 as int);
            <UaString as BinaryEncoder>::lemma_parse_len(s2);
            if let Ok((_, n2)) = <UaString as BinaryEncoder>::parse(s2) {
                let s3 = s2.skip(n2 as int);
                <LocalizedText as BinaryEncoder>::lemma_parse_len(s3);
                if let Ok((_, n3)) = <LocalizedText as BinaryEncoder>::parse(s3) {
                    let s4 = s3.skip(n3 as int);
                    <ApplicationType as BinaryEncoder>::lemma_parse_len(s4);
                    if let Ok((_, n4)) = <ApplicationType as BinaryEncoder>::parse(s4) {
                        let s5 = s4.skip(n4 as int);
                        <UaString as BinaryEncoder>::lemma_parse_len(s5);
                        if let Ok((_, n5)) = <UaString as BinaryEncoder>::parse(s5) {
                            let s6 = s5.skip(n5 as int);
                            <UaString as BinaryEncoder>::lemma_parse_len(s6);
                            if let Ok((_, n6)) = <UaString as BinaryEncoder>::parse(s6) {
                                let s7 = s6.skip(n6 as int);
                                lemma_array_parse_len::<UaString>(s7);
                            }
                        }
                    }
                }
            }
        }
    }

    fn byte_len(&self) -> usize {
        self.application_uri.byte_len() + self.product_uri.byte_len() + self.application_name.byte_len() + self.application_type.byte_len() + self.gateway_server_uri.byte_len() + self.discovery_profile_uri.byte_len() + byte_len_array(&self.discovery_urls)
    }

    #[verifier::spinoff_prover]
    #[verifier::rlimit(100)]
    fn encode(&self, buf: &mut Vec<u8>) -> Result<usize, StatusCode> {
        let n1 = match self.application_uri.encode(buf) {
            Ok(n) => n,
            Err(e) => return Err(e),
        };
        let n2 = match self.product_uri.encode(buf) {
            Ok(n) => n,
            Err(e) => return Err(e),
        };
        let n3 = match self.application_name.encode(buf) {
            Ok(n) => n,
            Err(e) => return Err(e),
        };
        let n4 = match self.application_type.encode(buf) {
            Ok(n) => n,
            Err(e) => return Err(e),
        };
        let n5 = match self.gateway_server_uri.encode(buf) {
            Ok(n) => n,
            Err(e) => return Err(e),
        };
        let n6 = match self.discovery_profile_uri.encode(buf) {
            Ok(n) => n,
            Err(e) => return Err(e),
        };
        let n7 = match write_array(buf, &self.discovery_urls) {
            Ok(n) => n,
            Err(e) => return Err(e),
        };
        proof {
            let v = self@;
            let o = old(buf)@;
            let e1 = <UaString as BinaryEncoder>::encoding(v.application_uri);
            let e2 = <UaString as BinaryEncoder>::encoding(v.product_uri);
            let e3 = <LocalizedText as BinaryEncoder>::encoding(v.application_name);
            let e4 = <ApplicationType as BinaryEncoder>::encoding(v.application_type);
            let e5 = <UaString as BinaryEncoder>::encoding(v.gateway_server_uri);
            let e6 = <UaString as BinaryEncoder>::encoding(v.discovery_profile_uri);
            let e7 = array_encoding::<UaString>(v.discovery_urls);
            lemma_assoc(o, e1, e2);
            lemma_assoc(o, e1 + e2, e3);
            lemma_assoc(o, e1 + e2 + e3, e4);
            lemma_assoc(o, e1 + e2 + e3 + e4, e5);
            lemma_assoc(o, e1 + e2 + e3 + e4 + e5, e6);
            lemma_assoc(o, e1 + e2 + e3 + e4 + e5 + e6, e7);
        }
        Ok(n1 + n2 + n3 + n4 + n5 + n6 + n7)
    }

    #[verifier::spinoff_prover]
    #[verifier::rlimit(100)]
    fn decode(data: &[u8], pos: usize) -> Result<(ApplicationDescription, usize), StatusCode> {
        let (application_uri, p1) = match <UaString as BinaryEncoder>::decode(data, pos) {
            Ok(x) => x,
            Err(e) => return Err(e),
        };
        proof {
            lemma_skip_skip(data@, pos as int, p1 - pos);
        }
        let (product_uri, p2) = match <UaString as BinaryEncoder>::decode(data, p1) {
            Ok(x) => x,
            Err(e) => return Err(e),
        };
        proof {
            lemma_skip_skip(data@, p1 as int, p2 - p1);
        }
        let (application_name, p3) = match <LocalizedText as BinaryEncoder>::decode(data, p2) {
            Ok(x) => x,
            Err(e) => return Err(e),
        };
        proof {
            lemma_skip_skip(data@, p2 as int, p3 - p2);
        }
        let (application_type, p4) = match <ApplicationType as BinaryEncoder>::decode(data, p3) {
            Ok(x) => x,
            Err(e) => return Err(e),
        };
        proof {
            lemma_skip_skip(data@, p3 as int, p4 - p3);
        }
        let (gateway_server_uri, p5) = match <UaString as BinaryEncoder>::decode(data, p4) {
            Ok(x) => x,
            Err(e) => return Err(e),
        };
        proof {
            lemma_skip_skip(data@, p4 as int, p5 - p4);
        }
        let (discovery_profile_uri, p6) = match <UaString as BinaryEncoder>::decode(data, p5) {
            Ok(x) => x,
            Err(e) => return Err(e),
        };
        proof {
            lemma_skip_skip(data@, p5 as int, p6 - p5);
        }
        let (discovery_urls, p7) = match read_array::<UaString>(data, p6) {
            Ok(x) => x,
            Err(e) => return Err(e),
        };
        Ok((ApplicationDescription { application_uri, product_uri, application_name, application_type, gateway_server_uri, discovery_profile_uri, discovery_urls }, p7))
    }
}

/// A kind of user identity that an endpoint accepts.
#[derive(Debug, Clone, PartialEq, Eq)]
pub struct UserTokenPolicy {
    pub policy_id: UaString,
    pub token_type: UserTokenType,
    pub issued_token_type: UaString,
    pub issuer_endpoint_url: UaString,
    pub security_policy_uri: UaString,
}

pub struct UserTokenPolicyView {
    pub policy_id: Option<Seq<u8>>,
    pub token_type: UserTokenType,
    pub issued_token_type: Option<Seq<u8>>,
    pub issuer_endpoint_url: Option<Seq<u8>>,
    pub security_policy_uri: Option<Seq<u8>>,
}

impl View for UserTokenPolicy {
    type V = UserTokenPolicyView;

    open spec fn view(&self) -> UserTokenPolicyView {
        UserTokenPolicyView {
            policy_id: self.policy_id@,
            token_type: self.token_type@,
            issued_token_type: self.issued_token_type@,
            issuer_endpoint_url: self.issuer_endpoint_url@,
            security_policy_uri: self.security_policy_uri@,
        }
    }
}

impl BinaryEncoder for UserTokenPolicy {
    open spec fn encoding(v: UserTokenPolicyView) -> Seq<u8> {
        <UaString as BinaryEncoder>::encoding(v.policy_id) + <UserTokenType as BinaryEncoder>::encoding(v.token_type) + <UaString as BinaryEncoder>::encoding(v.issued_token_type) + <UaString as BinaryEncoder>::encoding(v.issuer_endpoint_url) + <UaString as BinaryEncoder>::encoding(v.security_policy_uri)
    }

    open spec fn parse(s1: Seq<u8>) -> Parsed<UserTokenPolicyView> {
        match <UaString as BinaryEncoder>::parse(s1) {
            Err(e) => Err(e),
            Ok((policy_id, n1)) => {
                let s2 = s1.skip(n1 as int);
                match <UserTokenType as BinaryEncoder>::parse(s2) {
                    Err(e) => Err(e),
                    Ok((token_type, n2)) => {
                        let s3 = s2.skip(n2 as int);
                        match <UaString as BinaryEncoder>::parse(s3) {
                            Err(e) => Err(e),
                            Ok((issued_token_type, n3)) => {
                                let s4 = s3.skip(n3 as int);
                                match <UaString as BinaryEncoder>::parse(s4) {
                                    Err(e) => Err(e),
                                    Ok((issuer_endpoint_url, n4)) => {
                                        let s5 = s4.skip(n4 as int);
                                        match <UaString as BinaryEncoder>::parse(s5) {
                                            Err(e) => Err(e),
                                            Ok((security_policy_uri, n5)) => {
                                                Ok((UserTokenPolicyView { policy_id, token_type, issued_token_type, issuer_endpoint_url, security_policy_uri }, n1 + n2 + n3 + n4 + n5))
                                            },
                                        }
                                    },
                                }
                            },
                        }
                    },
                }
            },
        }
    }

    open spec fn in_limits(v: UserTokenPolicyView) -> bool {
        <UaString as BinaryEncoder>::in_limits(v.policy_id) && <UserTokenType as BinaryEncoder>::in_limits(v.token_type) && <UaString as BinaryEncoder>::in_limits(v.issued_token_type) && <UaString as BinaryEncoder>::in_limits(v.issuer_endpoint_url) && <UaString as BinaryEncoder>::in_limits(v.security_policy_uri)
    }

    proof fn lemma_round_trip(v: UserTokenPolicyView, rest: Seq<u8>) {
        let e1 = <UaString as BinaryEncoder>::encoding(v.policy_id);
        let e2 = <UserTokenType as BinaryEncoder>::encoding(v.token_type);
        let e3 = <UaString as BinaryEncoder>::encoding(v.issued_token_type);
        let e4 = <UaString as BinaryEncoder>::encoding(v.issuer_endpoint_url);
        let e5 = <UaString as BinaryEncoder>::encoding(v.security_policy_uri);
        let t5 = rest;
        let t4 = e5 + t5;
        let t3 = e4 + t4;
        let t2 = e3 + t3;
        let t1 = e2 + t2;
        lemma_assoc(e1 + e2 + e3 + e4, e5, t5);
        lemma_assoc(e1 + e2 + e3, e4, t4);
        lemma_assoc(e1 + e2, e3, t3);
        lemma_assoc(e1, e2, t2);
        <UaString as BinaryEncoder>::lemma_round_trip(v.policy_id, t1);
        lemma_skip_concat(e1, t1);
        <UserTokenType as BinaryEncoder>::lemma_round_trip(v.token_type, t2);
        lemma_skip_concat(e2, t2);
        <UaString as BinaryEncoder>::lemma_round_trip(v.issued_token_type, t3);
        lemma_skip_concat(e3, t3);
        <UaString as BinaryEncoder>::lemma_round_trip(v.issuer_endpoint_url, t4);
        lemma_skip_concat(e4, t4);
        <UaString as BinaryEncoder>::lemma_round_trip(v.security_policy_uri, t5);
    }

    proof fn lemma_parse_len(s1: Seq<u8>) {
        <UaString as BinaryEncoder>::lemma_parse_len(s1);
        if let Ok((_, n1)) = <UaString as BinaryEncoder>::parse(s1) {
            let s2 = s1.skip(n1 as int);
            <UserTokenType as BinaryEncoder>::lemma_parse_len(s2);
            if let Ok((_, n2)) = <UserTokenType as BinaryEncoder>::parse(s2) {
                let s3 = s2.skip(n2 as int);
                <UaString as BinaryEncoder>::lemma_parse_len(s3);
                if let Ok((_, n3)) = <UaString as BinaryEncoder>::parse(s3) {
                    let s4 = s3.skip(n3 as int);
                    <UaString as BinaryEncoder>::lemma_parse_len(s4);
                    if let Ok((_, n4)) = <UaString as BinaryEncoder>::parse(s4) {
                        let s5 = s4.skip(n4 as int);
                        <UaString as BinaryEncoder>::lemma_parse_len(s5);
                    }
                }
            }
        }
    }

    fn byte_len(&self) -> usize {
        self.policy_id.byte_len() + self.token_type.byte_len() + self.issued_token_type.byte_len() + self.issuer_endpoint_url.byte_len() + self.security_policy_uri.byte_len()
    }

    #[verifier::spinoff_prover]
    #[verifier::rlimit(100)]
    fn encode(&self, buf: &mut Vec<u8>) -> Result<usize, StatusCode> {
        let n1 = match self.policy_id.encode(buf) {
            Ok(n) => n,
            Err(e) => return Err(e),
        };
        let n2 = match self.token_type.encode(buf) {
            Ok(n) => n,
            Err(e) => return Err(e),
        };
        let n3 = match self.issued_token_type.encode(buf) {
            Ok(n) => n,
            Err(e) => return Err(e),
        };
        let n4 = match self.issuer_endpoint_url.encode(buf) {
            Ok(n) => n,
            Err(e) => return Err(e),
        };
        let n5 = match self.security_policy_uri.encode(buf) {
            Ok(n) => n,
            Err(e) => return Err(e),
        };
        proof {
            let v = self@;
            let o = old(buf)@;
            let e1 = <UaString as BinaryEncoder>::encoding(v.policy_id);
            let e2 = <UserTokenType as BinaryEncoder>::encoding(v.token_type);
            let e3 = <UaString as BinaryEncoder>::encoding(v.issued_token_type);
            let e4 = <UaString as BinaryEncoder>::encoding(v.issuer_endpoint_url);
            let e5 = <UaString as BinaryEncoder>::encoding(v.security_policy_uri);
            lemma_assoc(o, e1, e2);
            lemma_assoc(o, e1 + e2, e3);
            lemma_assoc(o, e1 + e2 + e3, e4);
            lemma_assoc(o, e1 + e2 + e3 + e4, e5);
        }
        Ok(n1 + n2 + n3 + n4 + n5)
    }

    #[verifier::spinoff_prover]
    #[verifier::rlimit(100)]
    fn decode(data: &[u8], pos: usize) -> Result<(UserTokenPolicy, usize), StatusCode> {
        let (policy_id, p1) = match <UaString as BinaryEncoder>::decode(data, pos) {
            Ok(x) => x,
            Err(e) => return Err(e),
        };
        proof {
            lemma_skip_skip(data@, pos as int, p1 - pos);
        }
        let (token_type, p2) = match <UserTokenType as BinaryEncoder>::decode(data, p1) {
            Ok(x) => x,
            Err(e) => return Err(e),
        };
        proof {
            lemma_skip_skip(data@, p1 as int, p2 - p1);
        }
        let (issued_token_type, p3) = match <UaString as BinaryEncoder>::decode(data, p2) {
            Ok(x) => x,
            Err(e) => return Err(e),
        };
        proof {
            lemma_skip_skip(data@, p2 as int, p3 - p2);
        }
        let (issuer_endpoint_url, p4) = match <UaString as BinaryEncoder>::decode(data, p3) {
            Ok(x) => x,
            Err(e) => return Err(e),
        };
        proof {
            lemma_skip_skip(data@, p3 as int, p4 - p3);
        }
        let (security_policy_uri, p5) = match <UaString as BinaryEncoder>::decode(data, p4) {
            Ok(x) => x,
            Err(e) => return Err(e),
        };
        Ok((UserTokenPolicy { policy_id, token_type, issued_token_type, issuer_endpoint_url, security_policy_uri }, p5))
    }
}

} // verus!
