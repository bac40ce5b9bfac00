use postfix_policy::test_helper::{handle_connection_response, DummySocket};
use postfix_policy::{handle_connection, PolicyRequestHandler, PolicyResponse, PostfixPolicyError};
use vstd::seq::Seq;

struct DummyRequestHandler {
    found_request: bool,
    client_address: Vec<u8>,
}

impl<'l> PolicyRequestHandler<'l, (), ()> for DummyRequestHandler {
    // the ghost model of this handler; never called at run time
    fn init_spec(_: &()) -> Self {
        unreachable!()
    }
    fn attribute_ok_spec(&self, _: Seq<u8>, _: Seq<u8>) -> Self {
        unreachable!()
    }
    fn attribute_err_spec(&self, _: Seq<u8>, _: Seq<u8>) -> Option<()> {
        unreachable!()
    }
    fn response_spec(&self) -> Result<PolicyResponse, ()> {
        unreachable!()
    }

    fn new(_: &()) -> Self {
        Self {
            found_request: false,
            client_address: vec![],
        }
    }

    fn attribute(&mut self, name: &[u8], value: &[u8]) -> Option<()> {
        match name {
            b"request" => self.found_request = true,
            b"client_address" => self.client_address = value.to_vec(),
            _ => {}
        }
        None
    }

    fn response(self) -> Result<PolicyResponse, ()> {
        if !self.found_request {
            return Ok(PolicyResponse::Reject(Vec::new()));
        }
        Ok(PolicyResponse::Defer(self.client_address.clone()))
    }
}

/// Answers every request with INFO over the attributes it saw, so leakage
/// between requests would show in the output.
struct CollectHandler {
    seen: Vec<u8>,
}

impl<'l> PolicyRequestHandler<'l, (), ()> for CollectHandler {
    // the ghost model of this handler; never called at run time
    fn init_spec(_: &()) -> Self {
        unreachable!()
    }
    fn attribute_ok_spec(&self, _: Seq<u8>, _: Seq<u8>) -> Self {
        unreachable!()
    }
    fn attribute_err_spec(&self, _: Seq<u8>, _: Seq<u8>) -> Option<()> {
        unreachable!()
    }
    fn response_spec(&self) -> Result<PolicyResponse, ()> {
        unreachable!()
    }

    fn new(_: &()) -> Self {
        Self { seen: Vec::new() }
    }

    fn attribute(&mut self, name: &[u8], value: &[u8]) -> Option<()> {
        if !self.seen.is_empty() {
            self.seen.push(b' ');
        }
        self.seen.extend_from_slice(name);
        self.seen.push(b'=');
        self.seen.extend_from_slice(value);
        None
    }

    fn response(self) -> Result<PolicyResponse, ()> {
        Ok(PolicyResponse::Info(self.seen))
    }
}

/// Fails every attribute with 7 and every finalization with 9.
struct RefusingHandler;

impl<'l> PolicyRequestHandler<'l, (), u8> for RefusingHandler {
    // the ghost model of this handler; never called at run time
    fn init_spec(_: &()) -> Self {
        unreachable!()
    }
    fn attribute_ok_spec(&self, _: Seq<u8>, _: Seq<u8>) -> Self {
        unreachable!()
    }
    fn attribute_err_spec(&self, _: Seq<u8>, _: Seq<u8>) -> Option<u8> {
        unreachable!()
    }
    fn response_spec(&self) -> Result<PolicyResponse, u8> {
        unreachable!()
    }

    fn new(_: &()) -> Self {
        Self
    }

    fn attribute(&mut self, _name: &[u8], _value: &[u8]) -> Option<u8> {
        Some(7)
    }

    fn response(self) -> Result<PolicyResponse, u8> {
        Err(9)
    }
}

#[test]
fn test_handle_connection_valid() {
    let input =
        b"request=smtpd_access_policy\nprotocol_state=RCPT\nprotocol_name=ESMTP\nclient_address=131.234.189.14\n\n";
    assert_eq!(
        handle_connection_response::<DummyRequestHandler, _, _>(input, &()).unwrap(),
        b"action=DEFER 131.234.189.14\n\n"
    );
}

#[test]
fn test_handle_connection_empty() {
    let input = b"\n";
    assert_eq!(
        handle_connection_response::<DummyRequestHandler, _, _>(input, &()).unwrap(),
        b"action=REJECT\n\n"
    );
}

#[test]
fn test_handle_connection_line_without_eq() {
    let input = b"asdf\n\n";

    assert!(
        match handle_connection_response::<DummyRequestHandler, _, _>(input, &()) {
            Err(PostfixPolicyError::ProtocolError(l)) => {
                assert_eq!(&l, b"asdf\n");
                true
            }
            _ => false,
        }
    );
}

#[test]
fn test_handle_connection_line_empty_name() {
    let input = b"=a\n\n";

    assert!(
        match handle_connection_response::<DummyRequestHandler, _, _>(input, &()) {
            Err(PostfixPolicyError::ProtocolError(l)) => {
                assert_eq!(&l, b"=a\n");
                true
            }
            _ => false,
        }
    );
}

#[test]
fn two_requests_two_fresh_handlers() {
    let input = b"a=b\n\nc=d\n\n";
    assert_eq!(
        handle_connection_response::<CollectHandler, _, _>(input, &()).unwrap(),
        b"action=INFO a=b\n\naction=INFO c=d\n\n"
    );
}

#[test]
fn empty_value_is_a_protocol_error() {
    // nothing between the separator and the terminator: the line is rejected
    let input = b"a=\n\n";
    let outcome = handle_connection_response::<CollectHandler, _, _>(input, &());
    assert!(matches!(
        outcome,
        Err(PostfixPolicyError::ProtocolError(l)) if l == b"a=\n"
    ));
}

#[test]
fn value_keeps_separators_after_the_first() {
    let input = b"a=b=c=\n\n";
    assert_eq!(
        handle_connection_response::<CollectHandler, _, _>(input, &()).unwrap(),
        b"action=INFO a=b=c=\n\n"
    );
}

#[test]
fn protocol_error_writes_nothing() {
    let mut socket = DummySocket::new(b"asdf\n\n");
    let outcome = handle_connection::<DummyRequestHandler, _, _>(&mut socket, &());
    assert!(matches!(
        outcome,
        Err(PostfixPolicyError::ProtocolError(l)) if l == b"asdf\n"
    ));
    assert_eq!(socket.get_output(), b"");
}

#[test]
fn earlier_responses_survive_a_late_abort() {
    let mut socket = DummySocket::new(b"a=b\n\nno separator\n");
    let outcome = handle_connection::<CollectHandler, _, _>(&mut socket, &());
    assert!(matches!(
        outcome,
        Err(PostfixPolicyError::ProtocolError(l)) if l == b"no separator\n"
    ));
    assert_eq!(socket.get_output(), b"action=INFO a=b\n\n");
}

#[test]
fn handler_error_on_attribute() {
    let outcome = handle_connection_response::<RefusingHandler, _, _>(b"a=b\n\n", &());
    assert!(matches!(outcome, Err(PostfixPolicyError::HandlerError(7))));
}

#[test]
fn handler_error_on_finalize() {
    let outcome = handle_connection_response::<RefusingHandler, _, _>(b"\n", &());
    assert!(matches!(outcome, Err(PostfixPolicyError::HandlerError(9))));
}

#[test]
fn stream_end_mid_request_is_clean() {
    // the blank line answers the first, empty request; the attribute after
    // it reaches a second handler that the ended stream never finalizes
    let mut socket = DummySocket::new(b"\na=bc");
    let outcome = handle_connection::<CollectHandler, _, _>(&mut socket, &());
    assert!(outcome.is_ok());
    assert_eq!(socket.get_output(), b"action=INFO\n\n");
}

#[test]
fn io_error_converts_to_transport_variant() {
    let e = std::io::Error::new(std::io::ErrorKind::Other, "broken pipe");
    let wrapped: PostfixPolicyError<()> = PostfixPolicyError::from(e);
    assert!(matches!(wrapped, PostfixPolicyError::IoError(_)));
}
