//! Parsing an inbound HTTP response from a decoded byte blob.
//!
//! The first line is `version statusCode statusMessage`, whitespace-split;
//! fewer than three tokens is an error naming the first missing one.
//! Headers and body follow the same rules as requests.

use vstd::prelude::*;
use vstd::string::StringSliceAdditionalSpecFns;

use crate::bytes::{split_lines, split_lines_exec, split_ws, split_ws_exec, lemma_deep_index};
use crate::error::{ParseError, SpecParseError};
use crate::kvmap::{pairs_map, KvMap};
use crate::request::{parse_headers, spec_body, spec_header_pairs};

verus! {

/// Spec-level status line.
pub struct SpecResponseLine {
    /// The protocol version token.
    pub http_version: Seq<u8>,
    /// The status code token, kept in string form.
    pub status_code: Seq<u8>,
    /// The status message token.
    pub status_message: Seq<u8>,
}

/// Spec-level response.
pub struct SpecResponse {
    /// The parsed status line.
    pub status_line: SpecResponseLine,
    /// The header mapping.
    pub headers: Map<Seq<u8>, Seq<u8>>,
    /// The body, present exactly when the text holds a `\r\n\r\n`.
    pub body: Option<Seq<u8>>,
}

/// What parsing a whole response returns, for every input.
pub open spec fn spec_parse_response(s: Seq<u8>) -> Result<SpecResponse, SpecParseError> {
    let lines = split_lines(s);
    let hdrs = if lines.len() == 0 || lines[0].len() == 0 {
        Ok(Seq::empty())
    } else {
        spec_header_pairs(lines.drop_first())
    };
    match hdrs {
        Err(l) => Err(SpecParseError::HeaderError(l)),
        Ok(ps) => {
            let tokens = if lines.len() == 0 {
                Seq::empty()
            } else {
                split_ws(lines[0])
            };
            if tokens.len() == 0 {
                Err(SpecParseError::NotFound("HTTP version".spec_bytes()))
            } else if tokens.len() == 1 {
                Err(SpecParseError::NotFound("Status code".spec_bytes()))
            } else if tokens.len() == 2 {
                Err(SpecParseError::NotFound("Status message".spec_bytes()))
            } else {
                Ok(
                    SpecResponse {
                        status_line: SpecResponseLine {
                            http_version: tokens[0],
                            status_code: tokens[1],
                            status_message: tokens[2],
                        },
                        headers: pairs_map(ps),
                        body: spec_body(s),
                    },
                )
            }
        }
    }
}

/// The first line of a response: version, status code, status message.
#[derive(Debug)]
pub struct ResponseLine {
    /// The protocol version token.
    pub http_version: Vec<u8>,
    /// The status code token, kept in string form and compared by prefix.
    pub status_code: Vec<u8>,
    /// The status message token.
    pub status_message: Vec<u8>,
}

impl View for ResponseLine {
    type V = SpecResponseLine;

    open spec fn view(&self) -> SpecResponseLine {
        SpecResponseLine {
            http_version: self.http_version@,
            status_code: self.status_code@,
            status_message: self.status_message@,
        }
    }
}

/// A parsed inbound response.
#[derive(Debug)]
pub struct Response {
    /// The parsed status line.
    pub status_line: ResponseLine,
    /// The header mapping, case-sensitive as received.
    pub headers: KvMap,
    /// The body, present exactly when the text holds a `\r\n\r\n`.
    pub body: Option<Vec<u8>>,
}

impl View for Response {
    type V = SpecResponse;

    open spec fn view(&self) -> SpecResponse {
        SpecResponse {
            status_line: self.status_line@,
            headers: self.headers@,
            body: match self.body {
                Some(b) => Some(b@),
                None => None,
            },
        }
    }
}

impl Response {
    /// Parses a whole response, as `spec_parse_response` describes it.
    pub fn parse(response: &[u8]) -> (r: Result<Response, ParseError>)
        ensures
            match r {
                Ok(resp) => spec_parse_response(response@) == Ok::<SpecResponse, SpecParseError>(
                    resp@,
                ),
                Err(e) => spec_parse_response(response@) == Err::<SpecResponse, SpecParseError>(
                    e@,
                ),
            },
    {
        let lines = split_lines_exec(response);
        if lines.len() == 0 {
            return Err(ParseError::NotFound("HTTP version".as_bytes_vec()));
        }
        proof {
            lemma_deep_index(&lines, 0);
        }
        let headers = if lines[0].len() > 0 {
            match parse_headers(&lines) {
                Ok(m) => m,
                Err(l) => {
                    return Err(ParseError::HeaderError(l));
                }
            }
        } else {
            KvMap::new()
        };
        let tokens = split_ws_exec(lines[0].as_slice());
        proof {
            if tokens@.len() > 0 {
                lemma_deep_index(&tokens, 0);
            }
            if tokens@.len() > 1 {
                lemma_deep_index(&tokens, 1);
            }
            if tokens@.len() > 2 {
                lemma_deep_index(&tokens, 2);
            }
        }
        if tokens.len() == 0 {
            return Err(ParseError::NotFound("HTTP version".as_bytes_vec()));
        }
        if tokens.len() == 1 {
            return Err(ParseError::NotFound("Status code".as_bytes_vec()));
        }
        if tokens.len() == 2 {
            return Err(ParseError::NotFound("Status message".as_bytes_vec()));
        }
        let boundary = "\r\n\r\n".as_bytes();
        proof {
            assert(boundary@ == crate::text::crlfcrlf());
        }
        let body = match crate::bytes::find_subseq_exec(response, boundary) {
            Some(i) => {
                proof {
                    crate::text::lemma_crlfcrlf_len();
                }
                let n = response.len();
                let b = crate::bytes::copy_range(response, i + 4, n);
                proof {
                    assert(b@ =~= response@.skip(i + 4));
                }
                Some(b)
            }
            None => None,
        };
        Ok(
            Response {
                status_line: ResponseLine {
                    http_version: vstd::slice::slice_to_vec(tokens[0].as_slice()),
                    status_code: vstd::slice::slice_to_vec(tokens[1].as_slice()),
                    status_message: vstd::slice::slice_to_vec(tokens[2].as_slice()),
                },
                headers,
                body,
            },
        )
    }
}

} // verus!
