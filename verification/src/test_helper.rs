//! Helpers for exercising [`PolicyRequestHandler`](crate::PolicyRequestHandler)
//! implementations against the line format without a live connection.

use vstd::prelude::*;
use crate::engine::{handle_connection, PolicyRequestHandler};
use crate::error::PostfixPolicyError;

pub use crate::socket::DummySocket;

verus! {

/// Runs one connection over `input` and hands back the complete response
/// bytes, or the error that abandoned the connection — upon which whatever
/// was written up to that point is discarded.
///
/// The result is exactly what `run_lines` states for the lines of `input`,
/// starting from a fresh handler built from `ctx`.
pub fn handle_connection_response<'l, HandlerType, ContextType, ErrorType>(
    input: &'l [u8],
    ctx: &'l ContextType,
) -> (response: Result<Vec<u8>, PostfixPolicyError<ErrorType>>) where
    HandlerType: PolicyRequestHandler<'l, ContextType, ErrorType>
    ensures
        ({
            let run = crate::engine::run_lines(
                HandlerType::init_spec(ctx),
                ctx,
                crate::lines::lines_of(input@),
            );
            match response {
                Result::Ok(output) => run.abort is None && output@ == run.written,
                Result::Err(PostfixPolicyError::ProtocolError(bad)) => run.abort == Some(
                    crate::engine::EngineAbort::<ErrorType>::Protocol(bad@),
                ),
                Result::Err(PostfixPolicyError::HandlerError(e)) => run.abort == Some(
                    crate::engine::EngineAbort::Handler(e),
                ),
                Result::Err(PostfixPolicyError::IoError(_)) => false,
            }
        }),
{
    let mut socket = DummySocket::new(input);
    match handle_connection::<HandlerType, ContextType, ErrorType>(&mut socket, ctx) {
        Result::Err(e) => Result::Err(e),
        Result::Ok(_) => Result::Ok(socket.get_output()),
    }
}

} // verus!
