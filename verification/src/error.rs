//! The ways a connection can fail. Every one of them abandons the
//! connection; none is retried.

use vstd::prelude::*;

verus! {

/// Relies on `std::io::Error`, the error type of the standard library's
/// read and write calls; declared so the transport variant below can carry
/// it. Nothing is assumed about its values.
#[verifier::external_type_specification]
#[verifier::external_body]
pub struct ExIoError(std::io::Error);

/// What ended a connection before its clean end of stream.
#[derive(Debug)]
pub enum PostfixPolicyError<ErrorType> {
    /// The transport failed while receiving or sending.
    IoError(std::io::Error),
    /// A request line broke the framing rules; carries the raw offending
    /// line, terminator included.
    ProtocolError(Vec<u8>),
    /// A [`PolicyRequestHandler`](crate::PolicyRequestHandler) signalled a
    /// fatal condition; carries the handler's own error value.
    HandlerError(ErrorType),
}

impl<ErrorType> From<std::io::Error> for PostfixPolicyError<ErrorType> {
    fn from(e: std::io::Error) -> Self {
        PostfixPolicyError::IoError(e)
    }
}

impl<ErrorType> vstd::std_specs::convert::FromSpecImpl<std::io::Error> for PostfixPolicyError<ErrorType> {
    open spec fn obeys_from_spec() -> bool {
        true
    }

    open spec fn from_spec(e: std::io::Error) -> Self {
        PostfixPolicyError::IoError(e)
    }
}

} // verus!
