//! The connection engine: it decodes attribute lines, feeds a per-request
//! handler, and frames the handler's decision for the wire.

use vstd::prelude::*;
use crate::bytes::{copy_range, push_all, EQ, NL};
use crate::error::PostfixPolicyError;
use crate::response::{serialize_response, PolicyResponse};
use crate::socket::DummySocket;

verus! {

/// A per-request accumulator of attributes that ultimately produces a
/// decision.
///
/// The engine constructs one instance per request from the shared context,
/// hands it every decoded attribute of that request in order, and consumes
/// it for its decision once the request's blank line arrives. The four spec
/// functions are the instance's abstract behaviour; an implementation
/// chooses them and proves its three methods against them.
pub trait PolicyRequestHandler<'l, ContextType, ErrorType>: Sized {
    /// The instance that construction from `ctx` yields.
    spec fn init_spec(ctx: &ContextType) -> Self;

    /// The instance after it has recorded the attribute `name = value`.
    spec fn attribute_ok_spec(&self, name: Seq<u8>, value: Seq<u8>) -> Self;

    /// The fatal error, if any, that the attribute `name = value` provokes.
    spec fn attribute_err_spec(&self, name: Seq<u8>, value: Seq<u8>) -> Option<ErrorType>;

    /// The decision, or fatal error, that finalizing the instance yields.
    spec fn response_spec(&self) -> Result<PolicyResponse, ErrorType>;

    /// Creates a fresh instance for one request from the shared context.
    fn new(ctx: &'l ContextType) -> (handler: Self)
        ensures
            handler == Self::init_spec(ctx),
    ;

    /// Records one attribute of the request, or signals a fatal error, upon
    /// which the engine abandons the connection.
    fn attribute(&mut self, name: &[u8], value: &[u8]) -> (err: Option<ErrorType>)
        ensures
            err == old(self).attribute_err_spec(name@, value@),
            err is None ==> *final(self) == old(self).attribute_ok_spec(name@, value@),
    ;

    /// Consumes the instance and yields the decision for its request, or a
    /// fatal error, upon which the engine abandons the connection.
    fn response(self) -> (decision: Result<PolicyResponse, ErrorType>)
        ensures
            decision == self.response_spec(),
    ;
}

/// Why a run of the engine aborted its connection.
pub enum EngineAbort<ErrorType> {
    /// A line broke the framing rules; carries that raw line.
    Protocol(Seq<u8>),
    /// The handler signalled a fatal error.
    Handler(ErrorType),
}

/// What a run of the engine over some input leaves behind: the response
/// bytes it wrote before finishing or aborting, and why it aborted, if it
/// did.
#[verifier::ext_equal]
pub struct EngineRun<ErrorType> {
    /// The response frames written, in order.
    pub written: Seq<u8>,
    /// `None` for a clean end of stream, or the cause of the abort.
    pub abort: Option<EngineAbort<ErrorType>>,
}

/// The bytes `action=` that open every response line.
pub open spec fn action_prefix() -> Seq<u8> {
    seq!['a' as u8, 'c' as u8, 't' as u8, 'i' as u8, 'o' as u8, 'n' as u8, EQ]
}

/// One full response frame: the action line for `resp` and the blank line
/// that closes it.
pub open spec fn frame_of(resp: PolicyResponse) -> Seq<u8> {
    action_prefix() + crate::response::spec_serialize(resp) + seq![NL, NL]
}

/// The engine, one line at a time: what it writes and how it ends, for a
/// handler in state `handler` facing the lines `ls`.
///
/// A blank line finalizes the handler, appends the decision's frame and
/// starts over with a fresh instance; a malformed line aborts with that
/// line; any other line becomes one attribute call. The run ends cleanly
/// when the lines run out.
pub open spec fn run_lines<'l, HandlerType, ContextType, ErrorType>(
    handler: HandlerType,
    ctx: &ContextType,
    ls: Seq<Seq<u8>>,
) -> EngineRun<ErrorType> where HandlerType: PolicyRequestHandler<'l, ContextType, ErrorType>
    decreases ls.len(),
{
    if ls.len() == 0 {
        EngineRun { written: Seq::empty(), abort: None }
    } else {
        let line = ls[0];
        if crate::lines::is_blank_line(line) {
            match handler.response_spec() {
                Result::Err(e) => EngineRun {
                    written: Seq::empty(),
                    abort: Some(EngineAbort::Handler(e)),
                },
                Result::Ok(resp) => {
                    let rest = run_lines(HandlerType::init_spec(ctx), ctx, ls.skip(1));
                    EngineRun { written: frame_of(resp) + rest.written, abort: rest.abort }
                },
            }
        } else if crate::lines::line_malformed(line) {
            EngineRun { written: Seq::empty(), abort: Some(EngineAbort::Protocol(line)) }
        } else {
            match handler.attribute_err_spec(
                crate::lines::line_name(line),
                crate::lines::line_value(line),
            ) {
                Some(e) => EngineRun { written: Seq::empty(), abort: Some(EngineAbort::Handler(e)) },
                None => run_lines(
                    handler.attribute_ok_spec(
                        crate::lines::line_name(line),
                        crate::lines::line_value(line),
                    ),
                    ctx,
                    ls.skip(1),
                ),
            }
        }
    }
}

/// The handler state after it has recorded the attribute lines `ls`, in
/// order.
pub open spec fn feed_lines<'l, HandlerType, ContextType, ErrorType>(
    handler: HandlerType,
    ls: Seq<Seq<u8>>,
) -> HandlerType where HandlerType: PolicyRequestHandler<'l, ContextType, ErrorType>
    decreases ls.len(),
{
    if ls.len() == 0 {
        handler
    } else {
        feed_lines::<HandlerType, ContextType, ErrorType>(
            handler.attribute_ok_spec(
                crate::lines::line_name(ls[0]),
                crate::lines::line_value(ls[0]),
            ),
            ls.skip(1),
        )
    }
}

/// Whether `ls` is a run of well-formed attribute lines that the handler,
/// started in state `handler`, accepts one after the other.
pub open spec fn attrs_ok<'l, HandlerType, ContextType, ErrorType>(
    handler: HandlerType,
    ls: Seq<Seq<u8>>,
) -> bool where HandlerType: PolicyRequestHandler<'l, ContextType, ErrorType>
    decreases ls.len(),
{
    if ls.len() == 0 {
        true
    } else {
        &&& !crate::lines::is_blank_line(ls[0])
        &&& !crate::lines::line_malformed(ls[0])
        &&& handler.attribute_err_spec(
            crate::lines::line_name(ls[0]),
            crate::lines::line_value(ls[0]),
        ) is None
        &&& attrs_ok::<HandlerType, ContextType, ErrorType>(
            handler.attribute_ok_spec(
                crate::lines::line_name(ls[0]),
                crate::lines::line_value(ls[0]),
            ),
            ls.skip(1),
        )
    }
}

/// Law: a syntactically valid request — any number of well-formed attribute
/// lines, each accepted by the handler, closed by one blank line — yields
/// exactly one full response frame before the engine turns to the lines
/// after it, and it faces those with a freshly constructed handler.
pub proof fn lemma_request_round_trip<'l, HandlerType, ContextType, ErrorType>(
    handler: HandlerType,
    ctx: &ContextType,
    attrs: Seq<Seq<u8>>,
    rest: Seq<Seq<u8>>,
) where HandlerType: PolicyRequestHandler<'l, ContextType, ErrorType>
    requires
        attrs_ok::<HandlerType, ContextType, ErrorType>(handler, attrs),
        feed_lines::<HandlerType, ContextType, ErrorType>(handler, attrs).response_spec() is Ok,
    ensures
        ({
            let resp = feed_lines::<HandlerType, ContextType, ErrorType>(
                handler,
                attrs,
            ).response_spec()->Ok_0;
            let whole = run_lines(handler, ctx, attrs + seq![seq![NL]] + rest);
            let after = run_lines(HandlerType::init_spec(ctx), ctx, rest);
            &&& whole.written == frame_of(resp) + after.written
            &&& whole.abort == after.abort
        }),
    decreases attrs.len(),
{
    let ls = attrs + seq![seq![NL]] + rest;
    if attrs.len() == 0 {
        assert(ls =~= seq![seq![NL]] + rest);
        assert(crate::lines::is_blank_line(ls[0]));
        assert(ls.skip(1) =~= rest);
    } else {
        let line = attrs[0];
        let fed = handler.attribute_ok_spec(
            crate::lines::line_name(line),
            crate::lines::line_value(line),
        );
        lemma_request_round_trip(fed, ctx, attrs.skip(1), rest);
        assert(ls[0] == line);
        assert(ls.skip(1) =~= attrs.skip(1) + seq![seq![NL]] + rest);
    }
}

/// Law: a request with no attributes at all — the blank line comes first —
/// still yields one full response frame for the handler's decision.
pub proof fn lemma_empty_request<'l, HandlerType, ContextType, ErrorType>(
    ctx: &ContextType,
    rest: Seq<Seq<u8>>,
) where HandlerType: PolicyRequestHandler<'l, ContextType, ErrorType>
    requires
        HandlerType::init_spec(ctx).response_spec() is Ok,
    ensures
        ({
            let resp = HandlerType::init_spec(ctx).response_spec()->Ok_0;
            let whole = run_lines(HandlerType::init_spec(ctx), ctx, seq![seq![NL]] + rest);
            let after = run_lines(HandlerType::init_spec(ctx), ctx, rest);
            &&& whole.written == frame_of(resp) + after.written
            &&& whole.abort == after.abort
        }),
{
    let handler = HandlerType::init_spec(ctx);
    lemma_request_round_trip(handler, ctx, Seq::empty(), rest);
    assert(Seq::<Seq<u8>>::empty() + seq![seq![NL]] + rest =~= seq![seq![NL]] + rest);
}

/// Law: after any run of well-formed, accepted attribute lines, a line that
/// breaks the framing rules aborts the connection with a protocol error
/// carrying exactly that line, and nothing of the request is written.
pub proof fn lemma_malformed_line_aborts<'l, HandlerType, ContextType, ErrorType>(
    handler: HandlerType,
    ctx: &ContextType,
    attrs: Seq<Seq<u8>>,
    bad: Seq<u8>,
    rest: Seq<Seq<u8>>,
) where HandlerType: PolicyRequestHandler<'l, ContextType, ErrorType>
    requires
        attrs_ok::<HandlerType, ContextType, ErrorType>(handler, attrs),
        !crate::lines::is_blank_line(bad),
        crate::lines::line_malformed(bad),
    ensures
        run_lines(handler, ctx, attrs + seq![bad] + rest) == (EngineRun::<ErrorType> {
            written: Seq::empty(),
            abort: Some(EngineAbort::Protocol(bad)),
        }),
    decreases attrs.len(),
{
    let ls = attrs + seq![bad] + rest;
    if attrs.len() == 0 {
        assert(ls[0] == bad);
    } else {
        let line = attrs[0];
        let fed = handler.attribute_ok_spec(
            crate::lines::line_name(line),
            crate::lines::line_value(line),
        );
        lemma_malformed_line_aborts(fed, ctx, attrs.skip(1), bad, rest);
        assert(ls[0] == line);
        assert(ls.skip(1) =~= attrs.skip(1) + seq![bad] + rest);
    }
}

/// Law: after any run of well-formed, accepted attribute lines, a line
/// without any separator — unless it is the bare terminator, which instead
/// completes the request — aborts the connection with a protocol error
/// carrying exactly that line, terminator included, and nothing of the
/// request is written.
pub proof fn lemma_line_without_separator_aborts<'l, HandlerType, ContextType, ErrorType>(
    handler: HandlerType,
    ctx: &ContextType,
    attrs: Seq<Seq<u8>>,
    bad: Seq<u8>,
    rest: Seq<Seq<u8>>,
) where HandlerType: PolicyRequestHandler<'l, ContextType, ErrorType>
    requires
        attrs_ok::<HandlerType, ContextType, ErrorType>(handler, attrs),
        !crate::lines::is_blank_line(bad),
        forall|j: int| 0 <= j < bad.len() ==> bad[j] != crate::bytes::EQ,
    ensures
        run_lines(handler, ctx, attrs + seq![bad] + rest) == (EngineRun::<ErrorType> {
            written: Seq::empty(),
            abort: Some(EngineAbort::Protocol(bad)),
        }),
{
    crate::lines::lemma_no_eq_is_malformed(bad);
    lemma_malformed_line_aborts(handler, ctx, attrs, bad, rest);
}

/// Encodes one full response frame: `action=`, the decision's encoding, and
/// the blank line after the action line.
pub fn encode_frame(resp: PolicyResponse) -> (frame: Vec<u8>)
    ensures
        frame@ == frame_of(resp),
{
    let ghost resp0 = resp;
    let mut frame: Vec<u8> = Vec::new();
    frame.push('a' as u8);
    frame.push('c' as u8);
    frame.push('t' as u8);
    frame.push('i' as u8);
    frame.push('o' as u8);
    frame.push('n' as u8);
    frame.push(EQ);
    let encoded = serialize_response(resp);
    push_all(&mut frame, encoded.as_slice());
    frame.push(NL);
    frame.push(NL);
    proof {
        assert(frame@ =~= frame_of(resp0));
    }
    frame
}

/// Drives the engine across one line, exactly as `run_lines` steps across
/// the head of its line sequence.
///
/// Yields the handler for the next line together with the response frame to
/// put on the wire, if this line completed a request; or the error that
/// abandons the connection.
pub fn process_line<'l, HandlerType, ContextType, ErrorType>(
    mut handler: HandlerType,
    line: &[u8],
    ctx: &'l ContextType,
) -> (step: Result<(HandlerType, Option<Vec<u8>>), PostfixPolicyError<ErrorType>>) where
    HandlerType: PolicyRequestHandler<'l, ContextType, ErrorType>
    ensures
        ({
            let l = line@;
            if crate::lines::is_blank_line(l) {
                match handler.response_spec() {
                    Result::Ok(resp) => match step {
                        Result::Ok((next, out)) => next == HandlerType::init_spec(ctx) && match out {
                            Some(frame) => frame@ == frame_of(resp),
                            None => false,
                        },
                        Result::Err(_) => false,
                    },
                    Result::Err(e) => match step {
                        Result::Err(PostfixPolicyError::HandlerError(he)) => he == e,
                        _ => false,
                    },
                }
            } else if crate::lines::line_malformed(l) {
                match step {
                    Result::Err(PostfixPolicyError::ProtocolError(bad)) => bad@ == l,
                    _ => false,
                }
            } else {
                match handler.attribute_err_spec(
                    crate::lines::line_name(l),
                    crate::lines::line_value(l),
                ) {
                    Some(e) => match step {
                        Result::Err(PostfixPolicyError::HandlerError(he)) => he == e,
                        _ => false,
                    },
                    None => match step {
                        Result::Ok((next, out)) => out is None && next == handler.attribute_ok_spec(
                            crate::lines::line_name(l),
                            crate::lines::line_value(l),
                        ),
                        Result::Err(_) => false,
                    },
                }
            }
        }),
{
    if line.len() == 1 && line[0] == NL {
        match handler.response() {
            Result::Err(e) => Result::Err(PostfixPolicyError::HandlerError(e)),
            Result::Ok(resp) => {
                let frame = encode_frame(resp);
                let next = HandlerType::new(ctx);
                Result::Ok((next, Some(frame)))
            },
        }
    } else {
        // find the first separator
        let mut p: usize = 0;
        while p < line.len() && line[p] != EQ
            invariant
                p <= line@.len(),
                forall|j: int| 0 <= j < p ==> line@[j] != EQ,
            decreases line@.len() - p,
        {
            p = p + 1;
        }
        proof {
            if p < line@.len() {
                crate::lines::lemma_eq_pos_found(line@, p as int);
            } else {
                crate::lines::lemma_eq_pos_missing(line@);
            }
        }
        if p == line.len() || p == 0 || line.len() - p < 3 {
            let bad = copy_range(line, 0, line.len());
            proof {
                assert(bad@ =~= line@);
            }
            Result::Err(PostfixPolicyError::ProtocolError(bad))
        } else {
            let name = copy_range(line, 0, p);
            let value = copy_range(line, p + 1, line.len() - 1);
            proof {
                assert(name@ == crate::lines::line_name(line@));
                assert(value@ == crate::lines::line_value(line@));
            }
            match handler.attribute(name.as_slice(), value.as_slice()) {
                Some(e) => Result::Err(PostfixPolicyError::HandlerError(e)),
                None => Result::Ok((handler, None)),
            }
        }
    }
}

/// Handles a connection to the mail server, here an in-memory
/// [`DummySocket`].
///
/// A fresh handler is constructed from `ctx` for every request; the engine
/// reads lines until the end of the stream, which is success, or until a
/// malformed line or a handler error abandons the connection. The outcome
/// and everything written follow `run_lines` over the lines of the input
/// exactly; on an abort, the frames of the requests already answered stay
/// written.
#[verifier::loop_isolation(false)]
pub fn handle_connection<'l, HandlerType, ContextType, ErrorType>(
    socket: &mut DummySocket,
    ctx: &'l ContextType,
) -> (outcome: Result<(), PostfixPolicyError<ErrorType>>) where
    HandlerType: PolicyRequestHandler<'l, ContextType, ErrorType>
    requires
        old(socket).wf(),
    ensures
        final(socket).wf(),
        ({
            let run = run_lines(
                HandlerType::init_spec(ctx),
                ctx,
                crate::lines::lines_of(old(socket).remaining()),
            );
            &&& final(socket).written() == old(socket).written() + run.written
            &&& match outcome {
                Result::Ok(_) => run.abort is None && final(socket).remaining()
                    == Seq::<u8>::empty(),
                Result::Err(PostfixPolicyError::ProtocolError(bad)) => run.abort == Some(
                    EngineAbort::<ErrorType>::Protocol(bad@),
                ),
                Result::Err(PostfixPolicyError::HandlerError(e)) => run.abort == Some(
                    EngineAbort::Handler(e),
                ),
                Result::Err(PostfixPolicyError::IoError(_)) => false,
            }
        }),
{
    let ghost input0 = socket.remaining();
    let ghost written0 = socket.written();
    let mut handler: HandlerType = HandlerType::new(ctx);
    let ghost mut produced: Seq<u8> = Seq::<u8>::empty();
    loop
        invariant
            socket.wf(),
            socket.written() == written0 + produced,
            ({
                let whole = run_lines(
                    HandlerType::init_spec(ctx),
                    ctx,
                    crate::lines::lines_of(input0),
                );
                let rest = run_lines(handler, ctx, crate::lines::lines_of(socket.remaining()));
                &&& whole.written == produced + rest.written
                &&& whole.abort == rest.abort
            }),
        decreases socket.remaining().len(),
    {
        let ghost rem_before = socket.remaining();
        let ghost k = crate::lines::line_len(rem_before);
        proof {
            crate::lines::lemma_line_len_bounds(rem_before);
        }
        let line = socket.read_line();
        if line.len() == 0 {
            proof {
                assert(rem_before.len() == 0);
                assert(socket.remaining() =~= Seq::<u8>::empty());
                assert(produced + Seq::<u8>::empty() =~= produced);
            }
            return Result::Ok(());
        }
        proof {
            let ls = crate::lines::lines_of(rem_before);
            assert(ls[0] == line@);
            assert(ls.skip(1) =~= crate::lines::lines_of(socket.remaining()));
            assert(produced + Seq::<u8>::empty() =~= produced);
        }
        match process_line(handler, line.as_slice(), ctx) {
            Result::Err(e) => {
                return Result::Err(e);
            },
            Result::Ok((next, out)) => {
                handler = next;
                match out {
                    Some(frame) => {
                        socket.write_all(frame.as_slice());
                        proof {
                            let rest = run_lines(
                                handler,
                                ctx,
                                crate::lines::lines_of(socket.remaining()),
                            );
                            assert(produced + (frame@ + rest.written) =~= (produced + frame@)
                                + rest.written);
                            produced = produced + frame@;
                        }
                    },
                    None => {},
                }
            },
        }
    }
}

} // verus!
