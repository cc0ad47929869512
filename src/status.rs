use vstd::prelude::*;

verus! {

/// The status codes that the protocol plane and the address space report.
#[derive(Debug, Clone, Copy, PartialEq, Eq, Structural)]
pub enum StatusCode {
    Good,
    BadTcpMessageTypeInvalid,
    BadTcpMessageTooLarge,
    BadTcpEndpointUrlInvalid,
    BadCommunicationError,
    BadSecurityChecksFailed,
    BadSecureChannelIdInvalid,
    BadSecurityTokenRejected,
    BadSequenceNumberInvalid,
    BadRequestTooLarge,
    BadSessionIdInvalid,
    BadSessionClosed,
    BadSessionNotActivated,
    BadNothingToDo,
    BadTooManyOperations,
    BadTypeMismatch,
    BadNotWritable,
    BadNodeIdUnknown,
    BadAttributeIdInvalid,
    BadDecodingError,
    BadEncodingLimitsExceeded,
}

} // verus!
