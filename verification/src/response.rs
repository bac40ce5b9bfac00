//! The closed set of policy decisions and their wire encoding.

use vstd::prelude::*;
use crate::bytes::SP;

verus! {

/// A decision sent back to the mail server in answer to one policy request.
///
/// Every payload is an opaque byte sequence and may be empty.
#[derive(Debug, PartialEq)]
pub enum PolicyResponse {
    Okay,
    Reject(Vec<u8>),
    Defer(Vec<u8>),
    DeferIfReject(Vec<u8>),
    DeferIfPermit(Vec<u8>),
    Bcc(Vec<u8>),
    Discard(Vec<u8>),
    Dunno,
    Hold(Vec<u8>),
    Redirect(Vec<u8>),
    Info(Vec<u8>),
    Warn(Vec<u8>),
}

/// The upper-case tag under which a decision goes on the wire.
pub open spec fn tag_of(resp: PolicyResponse) -> Seq<u8> {
    match resp {
        PolicyResponse::Okay => seq!['O' as u8, 'K' as u8],
        PolicyResponse::Reject(_) => seq![
            'R' as u8, 'E' as u8, 'J' as u8, 'E' as u8, 'C' as u8, 'T' as u8,
        ],
        PolicyResponse::Defer(_) => seq!['D' as u8, 'E' as u8, 'F' as u8, 'E' as u8, 'R' as u8],
        PolicyResponse::DeferIfReject(_) => seq![
            'D' as u8, 'E' as u8, 'F' as u8, 'E' as u8, 'R' as u8, '_' as u8,
            'I' as u8, 'F' as u8, '_' as u8,
            'R' as u8, 'E' as u8, 'J' as u8, 'E' as u8, 'C' as u8, 'T' as u8,
        ],
        PolicyResponse::DeferIfPermit(_) => seq![
            'D' as u8, 'E' as u8, 'F' as u8, 'E' as u8, 'R' as u8, '_' as u8,
            'I' as u8, 'F' as u8, '_' as u8,
            'P' as u8, 'E' as u8, 'R' as u8, 'M' as u8, 'I' as u8, 'T' as u8,
        ],
        PolicyResponse::Bcc(_) => seq!['B' as u8, 'C' as u8, 'C' as u8],
        PolicyResponse::Discard(_) => seq![
            'D' as u8, 'I' as u8, 'S' as u8, 'C' as u8, 'A' as u8, 'R' as u8, 'D' as u8,
        ],
        PolicyResponse::Dunno => seq!['D' as u8, 'U' as u8, 'N' as u8, 'N' as u8, 'O' as u8],
        PolicyResponse::Hold(_) => seq!['H' as u8, 'O' as u8, 'L' as u8, 'D' as u8],
        PolicyResponse::Redirect(_) => seq![
            'R' as u8, 'E' as u8, 'D' as u8, 'I' as u8, 'R' as u8, 'E' as u8, 'C' as u8, 'T' as u8,
        ],
        PolicyResponse::Info(_) => seq!['I' as u8, 'N' as u8, 'F' as u8, 'O' as u8],
        PolicyResponse::Warn(_) => seq!['W' as u8, 'A' as u8, 'R' as u8, 'N' as u8],
    }
}

/// The payload a decision carries: empty for `Okay` and `Dunno`.
pub open spec fn payload_of(resp: PolicyResponse) -> Seq<u8> {
    match resp {
        PolicyResponse::Okay => Seq::empty(),
        PolicyResponse::Reject(message) => message@,
        PolicyResponse::Defer(message) => message@,
        PolicyResponse::DeferIfReject(message) => message@,
        PolicyResponse::DeferIfPermit(message) => message@,
        PolicyResponse::Bcc(email) => email@,
        PolicyResponse::Discard(message) => message@,
        PolicyResponse::Dunno => Seq::empty(),
        PolicyResponse::Hold(message) => message@,
        PolicyResponse::Redirect(destination) => destination@,
        PolicyResponse::Info(message) => message@,
        PolicyResponse::Warn(message) => message@,
    }
}

/// The wire encoding of a decision: the bare tag when the payload is empty,
/// else the tag, one space, and the payload. No trailing line terminator.
pub open spec fn spec_serialize(resp: PolicyResponse) -> Seq<u8> {
    if payload_of(resp).len() == 0 {
        tag_of(resp)
    } else {
        tag_of(resp) + seq![SP] + payload_of(resp)
    }
}

/// Law: for every decision, the encoding is `TAG + ' ' + payload` when the
/// payload is non-empty, and exactly `TAG` (no trailing space) when it is
/// empty.
pub proof fn lemma_serialize_shape(resp: PolicyResponse)
    ensures
        payload_of(resp).len() == 0 ==> spec_serialize(resp) == tag_of(resp),
        payload_of(resp).len() > 0 ==> spec_serialize(resp) == tag_of(resp) + seq![SP]
            + payload_of(resp),
{
}

/// Encodes a decision for the wire.
pub fn serialize_response(resp: PolicyResponse) -> (encoded: Vec<u8>)
    ensures
        encoded@ == spec_serialize(resp),
{
    let ghost resp0 = resp;
    let mut encoded: Vec<u8> = Vec::new();
    let message: Vec<u8> = match resp {
        PolicyResponse::Okay => {
            encoded.push('O' as u8);
            encoded.push('K' as u8);
            Vec::new()
        },
        PolicyResponse::Reject(message) => {
            encoded.push('R' as u8);
            encoded.push('E' as u8);
            encoded.push('J' as u8);
            encoded.push('E' as u8);
            encoded.push('C' as u8);
            encoded.push('T' as u8);
            message
        },
        PolicyResponse::Defer(message) => {
            encoded.push('D' as u8);
            encoded.push('E' as u8);
            encoded.push('F' as u8);
            encoded.push('E' as u8);
            encoded.push('R' as u8);
            message
        },
        PolicyResponse::DeferIfReject(message) => {
            encoded.push('D' as u8);
            encoded.push('E' as u8);
            encoded.push('F' as u8);
            encoded.push('E' as u8);
            encoded.push('R' as u8);
            encoded.push('_' as u8);
            encoded.push('I' as u8);
            encoded.push('F' as u8);
            encoded.push('_' as u8);
            encoded.push('R' as u8);
            encoded.push('E' as u8);
            encoded.push('J' as u8);
            encoded.push('E' as u8);
            encoded.push('C' as u8);
            encoded.push('T' as u8);
            message
        },
        PolicyResponse::DeferIfPermit(message) => {
            encoded.push('D' as u8);
            encoded.push('E' as u8);
            encoded.push('F' as u8);
            encoded.push('E' as u8);
            encoded.push('R' as u8);
            encoded.push('_' as u8);
            encoded.push('I' as u8);
            encoded.push('F' as u8);
            encoded.push('_' as u8);
            encoded.push('P' as u8);
            encoded.push('E' as u8);
            encoded.push('R' as u8);
            encoded.push('M' as u8);
            encoded.push('I' as u8);
            encoded.push('T' as u8);
            message
        },
        PolicyResponse::Bcc(email) => {
            encoded.push('B' as u8);
            encoded.push('C' as u8);
            encoded.push('C' as u8);
            email
        },
        PolicyResponse::Discard(message) => {
            encoded.push('D' as u8);
            encoded.push('I' as u8);
            encoded.push('S' as u8);
            encoded.push('C' as u8);
            encoded.push('A' as u8);
            encoded.push('R' as u8);
            encoded.push('D' as u8);
            message
        },
        PolicyResponse::Dunno => {
            encoded.push('D' as u8);
            encoded.push('U' as u8);
            encoded.push('N' as u8);
            encoded.push('N' as u8);
            encoded.push('O' as u8);
            Vec::new()
        },
        PolicyResponse::Hold(message) => {
            encoded.push('H' as u8);
            encoded.push('O' as u8);
            encoded.push('L' as u8);
            encoded.push('D' as u8);
            message
        },
        PolicyResponse::Redirect(destination) => {
            encoded.push('R' as u8);
            encoded.push('E' as u8);
            encoded.push('D' as u8);
            encoded.push('I' as u8);
            encoded.push('R' as u8);
            encoded.push('E' as u8);
            encoded.push('C' as u8);
            encoded.push('T' as u8);
            destination
        },
        PolicyResponse::Info(message) => {
            encoded.push('I' as u8);
            encoded.push('N' as u8);
            encoded.push('F' as u8);
            encoded.push('O' as u8);
            message
        },
        PolicyResponse::Warn(message) => {
            encoded.push('W' as u8);
            encoded.push('A' as u8);
            encoded.push('R' as u8);
            encoded.push('N' as u8);
            message
        },
    };
    proof {
        assert(encoded@ =~= tag_of(resp0));
        assert(message@ == payload_of(resp0));
    }
    if message.len() != 0 {
        encoded.push(SP);
        crate::bytes::push_all(&mut encoded, message.as_slice());
        proof {
            assert(encoded@ =~= tag_of(resp0) + seq![SP] + payload_of(resp0));
        }
    }
    encoded
}

} // verus!
