//! One side of the Postfix policy-delegation protocol: a mail server streams
//! requests as `name=value` lines ended by a blank line, and expects exactly
//! one `action=...` response per request on the same connection.
//!
//! The crate decodes attribute lines, feeds them to a caller-supplied
//! [`PolicyRequestHandler`], and encodes the handler's [`PolicyResponse`]
//! back onto the wire.

pub mod bytes;
pub mod engine;
pub mod error;
pub mod lines;
pub mod response;
pub mod socket;
pub mod test_helper;

pub use crate::engine::{encode_frame, handle_connection, process_line, PolicyRequestHandler};
pub use crate::error::PostfixPolicyError;
pub use crate::response::{serialize_response, PolicyResponse};
