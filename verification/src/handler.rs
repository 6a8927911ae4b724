//! The reactive core: from a parsed message to a reply and an outcome.
//!
//! Each connection is one self-contained transaction. The spec functions
//! here fix, for every input, which bytes (if any) are written back to the
//! peer and which value or error is handed to the consumer. A `From`
//! header, when present, must name the expected peer; a missing header is
//! accepted for hubs that omit it.

use vstd::prelude::*;
use vstd::string::StrSliceExecFns;
use vstd::string::StringSliceAdditionalSpecFns;

use crate::bytes::{append_bytes, eq_bytes};
use crate::error::{
    Error, HandleConnectionError, ParseError, SpecError, SpecHandleConnectionError, SpecParseError,
};
use crate::framer::{decode_message, spec_decode};
use crate::message::{spec_message, Message, SpecMessage};
use crate::notification::{spec_is_new, spec_try_parse, Notification, SpecNotification};
use crate::request::{Request, SpecRequest};
use crate::response::{Response, SpecResponse};
use crate::text::{
    accepted_code, challenge_key, from_header, get_method, googlebot, ok_reply, post_method,
    reason_key,
};

verus! {

/// `4`, the first digit of a client-error status code.
pub const DIGIT_FOUR: u8 = 52;

/// `5`, the first digit of a server-error status code.
pub const DIGIT_FIVE: u8 = 53;

/// Whether the headers pass the peer gate: a `From` header, when present,
/// names the expected peer; an absent header passes.
pub open spec fn spec_from_gate(headers: Map<Seq<u8>, Seq<u8>>) -> bool {
    headers.contains_key(from_header()) ==> headers[from_header()] == googlebot()
}

/// What reacting to a request yields, for every input: the reply to write
/// back, if any, and the outcome for the consumer.
pub open spec fn spec_handle_request(req: SpecRequest, new_only: bool) -> (Option<Seq<u8>>, Result<
    Option<SpecNotification>,
    SpecError,
>) {
    if !spec_from_gate(req.headers) {
        (None, Err(SpecError::HandleConnection(SpecHandleConnectionError::Empty)))
    } else if req.request_line.method == get_method() {
        match req.request_line.params {
            None => (
                None,
                Err(
                    SpecError::Parse(
                        SpecParseError::ParameterError("No paramater in request".spec_bytes()),
                    ),
                ),
            ),
            Some(m) => if m.contains_key(reason_key()) {
                (None, Err(SpecError::SubscriptionError(m[reason_key()])))
            } else if m.contains_key(challenge_key()) {
                (Some(ok_reply() + m[challenge_key()]), Ok(None))
            } else {
                (
                    None,
                    Err(SpecError::Parse(SpecParseError::NotFound("hub.challenge".spec_bytes()))),
                )
            },
        }
    } else if req.request_line.method == post_method() {
        match req.body {
            None => (
                None,
                Err(SpecError::HandleConnection(SpecHandleConnectionError::NoBodyError)),
            ),
            Some(b) => match spec_try_parse(b) {
                Err(e) => (Some(ok_reply()), Err(e)),
                Ok(n) => if new_only && !spec_is_new(n) {
                    (Some(ok_reply()), Ok(None))
                } else {
                    (Some(ok_reply()), Ok(Some(n)))
                },
            },
        }
    } else {
        (None, Ok(None))
    }
}

/// What reacting to a response yields, for every input: `202` accepts the
/// subscription, a `4xx` or `5xx` rejects it with the body as the reason,
/// anything else is left unhandled.
pub open spec fn spec_handle_response(resp: SpecResponse) -> Result<(), SpecError> {
    if !spec_from_gate(resp.headers) {
        Err(SpecError::HandleConnection(SpecHandleConnectionError::Empty))
    } else if resp.status_line.status_code == accepted_code() {
        Ok(())
    } else if resp.status_line.status_code.len() > 0 && (resp.status_line.status_code[0]
        == DIGIT_FOUR || resp.status_line.status_code[0] == DIGIT_FIVE) {
        match resp.body {
            None => Err(SpecError::HandleConnection(SpecHandleConnectionError::NoBodyError)),
            Some(b) => Err(SpecError::SubscriptionError(b)),
        }
    } else {
        Ok(())
    }
}

/// What one whole connection yields from its raw bytes: decode, classify,
/// parse, react.
pub open spec fn spec_handle_message(raw: Seq<u8>, new_only: bool) -> (Option<Seq<u8>>, Result<
    Option<SpecNotification>,
    SpecError,
>) {
    match spec_decode(raw) {
        Err(e) => (None, Err(e)),
        Ok(cleaned) => match spec_message(cleaned) {
            Err(e) => (None, Err(e)),
            Ok(SpecMessage::Request(rq)) => spec_handle_request(rq, new_only),
            Ok(SpecMessage::Response(rs)) => (
                None,
                match spec_handle_response(rs) {
                    Ok(u) => Ok(None),
                    Err(e) => Err(e),
                },
            ),
        },
    }
}

/// Checks the peer gate on a header mapping.
fn from_gate(headers: &crate::kvmap::KvMap) -> (r: bool)
    ensures
        r == spec_from_gate(headers@),
{
    match headers.get("From".as_bytes()) {
        Some(v) => eq_bytes(v.as_slice(), "googlebot(at)googlebot.com".as_bytes()),
        None => true,
    }
}

/// Reacts to a parsed request, as `spec_handle_request` describes.
pub fn handle_request(request: Request, new_only: bool) -> (r: (
    Option<Vec<u8>>,
    Result<Option<Notification>, Error>,
))
    ensures
        ({
            let s = spec_handle_request(request@, new_only);
            &&& (match r.0 {
                Some(v) => s.0 == Some(v@),
                None => s.0 is None,
            })
            &&& (match r.1 {
                Ok(Some(n)) => s.1 == Ok::<Option<SpecNotification>, SpecError>(Some(n@)),
                Ok(None) => s.1 == Ok::<Option<SpecNotification>, SpecError>(None),
                Err(e) => s.1 == Err::<Option<SpecNotification>, SpecError>(e@),
            })
        }),
{
    if !from_gate(&request.headers) {
        return (None, Err(Error::HandleConnection(HandleConnectionError::Empty)));
    }
    if eq_bytes(request.request_line.method.as_slice(), "GET".as_bytes()) {
        match &request.request_line.params {
            None => (
                None,
                Err(
                    Error::Parse(
                        ParseError::ParameterError("No paramater in request".as_bytes_vec()),
                    ),
                ),
            ),
            Some(params) => {
                match params.get("hub.reason".as_bytes()) {
                    Some(reason) => (None, Err(Error::SubscriptionError(reason))),
                    None => {
                        match params.get("hub.challenge".as_bytes()) {
                            Some(challenge) => {
                                let mut reply = "HTTP/1.1 200 OK\r\n\r\n".as_bytes_vec();
                                append_bytes(&mut reply, challenge.as_slice());
                                (Some(reply), Ok(None))
                            }
                            None => (
                                None,
                                Err(
                                    Error::Parse(
                                        ParseError::NotFound("hub.challenge".as_bytes_vec()),
                                    ),
                                ),
                            ),
                        }
                    }
                }
            }
        }
    } else if eq_bytes(request.request_line.method.as_slice(), "POST".as_bytes()) {
        match request.body {
            None => (None, Err(Error::HandleConnection(HandleConnectionError::NoBodyError))),
            Some(b) => {
                let reply = "HTTP/1.1 200 OK\r\n\r\n".as_bytes_vec();
                match Notification::try_parse(b.as_slice()) {
                    Err(e) => (Some(reply), Err(e)),
                    Ok(n) => {
                        if new_only && !n.is_new() {
                            (Some(reply), Ok(None))
                        } else {
                            (Some(reply), Ok(Some(n)))
                        }
                    }
                }
            }
        }
    } else {
        (None, Ok(None))
    }
}

/// Reacts to a parsed response, as `spec_handle_response` describes.
pub fn handle_response(response: Response) -> (r: Result<(), Error>)
    ensures
        match r {
            Ok(u) => spec_handle_response(response@) == Ok::<(), SpecError>(()),
            Err(e) => spec_handle_response(response@) == Err::<(), SpecError>(e@),
        },
{
    if !from_gate(&response.headers) {
        return Err(Error::HandleConnection(HandleConnectionError::Empty));
    }
    let code = &response.status_line.status_code;
    if eq_bytes(code.as_slice(), "202".as_bytes()) {
        Ok(())
    } else if code.len() > 0 && (code[0] == DIGIT_FOUR || code[0] == DIGIT_FIVE) {
        match response.body {
            None => Err(Error::HandleConnection(HandleConnectionError::NoBodyError)),
            Some(b) => Err(Error::SubscriptionError(b)),
        }
    } else {
        Ok(())
    }
}

/// Handles one whole connection's bytes, as `spec_handle_message`
/// describes: the reply to write back, if any, and the outcome for the
/// consumer.
pub fn handle_message(raw: &[u8], new_only: bool) -> (r: (
    Option<Vec<u8>>,
    Result<Option<Notification>, Error>,
))
    ensures
        ({
            let s = spec_handle_message(raw@, new_only);
            &&& (match r.0 {
                Some(v) => s.0 == Some(v@),
                None => s.0 is None,
            })
            &&& (match r.1 {
                Ok(Some(n)) => s.1 == Ok::<Option<SpecNotification>, SpecError>(Some(n@)),
                Ok(None) => s.1 == Ok::<Option<SpecNotification>, SpecError>(None),
                Err(e) => s.1 == Err::<Option<SpecNotification>, SpecError>(e@),
            })
        }),
{
    let cleaned = match decode_message(raw) {
        Ok(v) => v,
        Err(e) => {
            return (None, Err(e));
        }
    };
    match Message::from_str(cleaned.as_slice()) {
        Err(e) => (None, Err(e)),
        Ok(Message::Request(rq)) => handle_request(rq, new_only),
        Ok(Message::Response(rs)) => {
            match handle_response(rs) {
                Ok(_) => (None, Ok(None)),
                Err(e) => (None, Err(e)),
            }
        }
    }
}

} // verus!
