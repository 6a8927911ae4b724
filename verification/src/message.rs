//! Classifying a decoded blob as a request or a response.
//!
//! One listening socket receives both the hub's own requests and its
//! acknowledgements of requests we sent. A blob starting with `HTTP/` can
//! only be a status line, so it is parsed as a response; anything else is
//! parsed as a request. Downstream code matches on the variant and never
//! sniffs prefixes again.

use vstd::prelude::*;

use crate::bytes::starts_with_bytes;
use crate::error::{Error, SpecError};
use crate::request::{spec_parse_request, Request, SpecRequest};
use crate::response::{spec_parse_response, Response, SpecResponse};
use crate::text::http_prefix;

verus! {

/// Spec mirror of `Message`.
pub enum SpecMessage {
    Request(SpecRequest),
    Response(SpecResponse),
}

/// What classifying and parsing a decoded blob returns, for every input.
pub open spec fn spec_message(s: Seq<u8>) -> Result<SpecMessage, SpecError> {
    if http_prefix().is_prefix_of(s) {
        match spec_parse_response(s) {
            Ok(r) => Ok(SpecMessage::Response(r)),
            Err(e) => Err(SpecError::Parse(e)),
        }
    } else {
        match spec_parse_request(s) {
            Ok(r) => Ok(SpecMessage::Request(r)),
            Err(e) => Err(SpecError::Parse(e)),
        }
    }
}

/// An inbound message, already told apart and parsed.
#[derive(Debug)]
pub enum Message {
    /// The hub is asking something of us.
    Request(Request),
    /// The hub is answering something we asked.
    Response(Response),
}

impl View for Message {
    type V = SpecMessage;

    open spec fn view(&self) -> SpecMessage {
        match self {
            Message::Request(r) => SpecMessage::Request(r@),
            Message::Response(r) => SpecMessage::Response(r@),
        }
    }
}

impl Message {
    /// Classifies `message` by its prefix and parses it accordingly, as
    /// `spec_message` describes.
    pub fn from_str(message: &[u8]) -> (r: Result<Message, Error>)
        ensures
            match r {
                Ok(m) => spec_message(message@) == Ok::<SpecMessage, SpecError>(m@),
                Err(e) => spec_message(message@) == Err::<SpecMessage, SpecError>(e@),
            },
    {
        let prefix = "HTTP/".as_bytes();
        proof {
            assert(prefix@ == http_prefix());
        }
        if starts_with_bytes(message, prefix) {
            match Response::parse(message) {
                Ok(r) => Ok(Message::Response(r)),
                Err(e) => Err(Error::Parse(e)),
            }
        } else {
            match Request::try_parse(message) {
                Ok(r) => Ok(Message::Request(r)),
                Err(e) => Err(Error::Parse(e)),
            }
        }
    }
}

} // verus!
