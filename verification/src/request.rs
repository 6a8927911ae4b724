//! Parsing an inbound HTTP request from a decoded byte blob.
//!
//! The shape of the accepted text is fixed by the spec functions here: the
//! first line is `method uri version`, the following non-empty lines are
//! headers split on the first `": "`, and the body is everything after the
//! first `\r\n\r\n` boundary. A query string is split on `&`, each pair on
//! its first `=`, with the last occurrence of a key winning.

use vstd::prelude::*;
use vstd::string::StringSliceAdditionalSpecFns;

use crate::bytes::{
    find_byte, find_subseq, split_lines, split_on, split_ws, AMP, EQUALS_SIGN, QUESTION_MARK,
};
use crate::bytes::{
    copy_range, find_byte_from, find_subseq_exec, lemma_deep_index, split_lines_exec,
    split_ws_exec,
};
use crate::error::{ParseError, SpecParseError};
use crate::kvmap::{pairs_map, KvMap};
use crate::text::{colon_space, crlfcrlf, lemma_colon_space_len, lemma_crlfcrlf_len};

verus! {

/// The query pairs of the given `&`-separated pieces, in order, each split
/// on its first `=`; `None` when a piece has no `=`.
pub open spec fn spec_query_pairs(pieces: Seq<Seq<u8>>) -> Option<Seq<(Seq<u8>, Seq<u8>)>>
    decreases pieces.len(),
{
    if pieces.len() == 0 {
        Some(Seq::empty())
    } else {
        match find_byte(pieces[0], EQUALS_SIGN) {
            None => None,
            Some(e) => match spec_query_pairs(pieces.drop_first()) {
                None => None,
                Some(r) => Some(
                    seq![(pieces[0].take(e), pieces[0].skip(e + 1))] + r,
                ),
            },
        }
    }
}

/// The header pairs of `lines` up to the first empty line, each split on
/// its first `": "`; `Err` carries the first line without that separator.
pub open spec fn spec_header_pairs(lines: Seq<Seq<u8>>) -> Result<Seq<(Seq<u8>, Seq<u8>)>, Seq<u8>>
    decreases lines.len(),
{
    if lines.len() == 0 || lines[0].len() == 0 {
        Ok(Seq::empty())
    } else {
        match find_subseq(lines[0], colon_space()) {
            None => Err(lines[0]),
            Some(i) => match spec_header_pairs(lines.drop_first()) {
                Err(l) => Err(l),
                Ok(rest) => Ok(
                    seq![(lines[0].take(i), lines[0].skip(i + 2))] + rest,
                ),
            },
        }
    }
}

/// The body of a message: everything after the first `\r\n\r\n`, if any.
pub open spec fn spec_body(s: Seq<u8>) -> Option<Seq<u8>> {
    match find_subseq(s, crlfcrlf()) {
        Some(i) => Some(s.skip(i + 4)),
        None => None,
    }
}

/// Spec-level request line.
pub struct SpecRequestLine {
    /// The method token.
    pub method: Seq<u8>,
    /// The URI up to the first `?`.
    pub path: Seq<u8>,
    /// The query mapping, present exactly when the URI holds a `?`.
    pub params: Option<Map<Seq<u8>, Seq<u8>>>,
    /// The protocol version token.
    pub http_version: Seq<u8>,
}

/// Spec-level request.
pub struct SpecRequest {
    /// The parsed first line.
    pub request_line: SpecRequestLine,
    /// The header mapping.
    pub headers: Map<Seq<u8>, Seq<u8>>,
    /// The body, present exactly when the text holds a `\r\n\r\n`.
    pub body: Option<Seq<u8>>,
}

/// What parsing a request line returns, for every input.
pub open spec fn spec_parse_request_line(line: Seq<u8>) -> Result<SpecRequestLine, SpecParseError> {
    let tokens = split_ws(line);
    if tokens.len() == 0 {
        Err(SpecParseError::NotFound("Method".spec_bytes()))
    } else if tokens.len() == 1 {
        Err(SpecParseError::NotFound("URI".spec_bytes()))
    } else {
        let uri = tokens[1];
        match find_byte(uri, QUESTION_MARK) {
            Some(q) => match spec_query_pairs(split_on(uri.skip(q + 1), AMP)) {
                None => Err(
                    SpecParseError::ParameterError("Parameter found is not key=value".spec_bytes()),
                ),
                Some(ps) => if tokens.len() == 2 {
                    Err(SpecParseError::NotFound("HTTP version".spec_bytes()))
                } else {
                    Ok(
                        SpecRequestLine {
                            method: tokens[0],
                            path: uri.take(q),
                            params: Some(pairs_map(ps)),
                            http_version: tokens[2],
                        },
                    )
                },
            },
            None => if tokens.len() == 2 {
                Err(SpecParseError::NotFound("HTTP version".spec_bytes()))
            } else {
                Ok(
                    SpecRequestLine {
                        method: tokens[0],
                        path: uri,
                        params: None,
                        http_version: tokens[2],
                    },
                )
            },
        }
    }
}

/// What parsing a whole request returns, for every input.
pub open spec fn spec_parse_request(s: Seq<u8>) -> Result<SpecRequest, SpecParseError> {
    let lines = split_lines(s);
    if lines.len() == 0 || lines[0].len() == 0 {
        Err(SpecParseError::NotFound("request line".spec_bytes()))
    } else {
        match spec_parse_request_line(lines[0]) {
            Err(e) => Err(e),
            Ok(rl) => match spec_header_pairs(lines.drop_first()) {
                Err(_) => Err(SpecParseError::ParameterError("error in header".spec_bytes())),
                Ok(ps) => Ok(
                    SpecRequest { request_line: rl, headers: pairs_map(ps), body: spec_body(s) },
                ),
            },
        }
    }
}

/// The first line of a request: method, path, query parameters, version.
#[derive(Debug)]
pub struct RequestLine {
    /// The method token.
    pub method: Vec<u8>,
    /// The URI up to the first `?`.
    pub path: Vec<u8>,
    /// The query mapping, present exactly when the URI holds a `?`.
    pub params: Option<KvMap>,
    /// The protocol version token.
    pub http_version: Vec<u8>,
}

impl View for RequestLine {
    type V = SpecRequestLine;

    open spec fn view(&self) -> SpecRequestLine {
        SpecRequestLine {
            method: self.method@,
            path: self.path@,
            params: match self.params {
                Some(m) => Some(m@),
                None => None,
            },
            http_version: self.http_version@,
        }
    }
}

/// A parsed inbound request.
#[derive(Debug)]
pub struct Request {
    /// The parsed first line.
    pub request_line: RequestLine,
    /// The header mapping, case-sensitive as received.
    pub headers: KvMap,
    /// The body, present exactly when the text holds a `\r\n\r\n`.
    pub body: Option<Vec<u8>>,
}

impl View for Request {
    type V = SpecRequest;

    open spec fn view(&self) -> SpecRequest {
        SpecRequest {
            request_line: self.request_line@,
            headers: self.headers@,
            body: match self.body {
                Some(b) => Some(b@),
                None => None,
            },
        }
    }
}

/// Parses a query string into its mapping, as `spec_query_pairs` over the
/// `&`-separated pieces describes it.
fn parse_query(qs: &[u8]) -> (r: Option<KvMap>)
    ensures
        match r {
            Some(m) => spec_query_pairs(split_on(qs@, AMP)) matches Some(ps) && m@ == pairs_map(
                ps,
            ),
            None => spec_query_pairs(split_on(qs@, AMP)) is None,
        },
{
    let mut m = KvMap::new();
    let mut pos: usize = 0;
    let mut done = false;
    proof {
        assert(qs@.skip(0) =~= qs@);
    }
    while !done
        invariant
            0 <= pos <= qs@.len(),
            !done ==> (match spec_query_pairs(split_on(qs@.skip(pos as int), AMP)) {
                Some(rest) => spec_query_pairs(split_on(qs@, AMP)) == Some(
                    m.pairs_view() + rest,
                ),
                None => spec_query_pairs(split_on(qs@, AMP)) is None,
            }),
            done ==> spec_query_pairs(split_on(qs@, AMP)) == Some(m.pairs_view()),
        decreases qs@.len() - pos + (if done {
            0int
        } else {
            1int
        }),
    {
        let ghost rem = qs@.skip(pos as int);
        let piece_end = match find_byte_from(qs, pos, AMP) {
            Some(j) => j,
            None => qs.len(),
        };
        let ghost last = piece_end == qs@.len();
        let piece = copy_range(qs, pos, piece_end);
        proof {
            assert(forall|k: int| 0 <= k < rem.len() ==> rem[k] == qs@[pos + k]);
            if last {
                crate::bytes::lemma_find_byte_none(rem, AMP);
                assert(split_on(rem, AMP) == seq![rem]);
                assert(rem =~= piece@);
            } else {
                crate::bytes::lemma_find_byte_is_first(rem, AMP, piece_end - pos);
                assert(rem.take(piece_end - pos) =~= piece@);
                assert(rem.skip(piece_end - pos + 1) =~= qs@.skip(piece_end + 1));
                assert(split_on(rem, AMP) == seq![piece@] + split_on(
                    qs@.skip(piece_end + 1),
                    AMP,
                ));
            }
        }
        match find_byte_from(piece.as_slice(), 0, EQUALS_SIGN) {
            None => {
                proof {
                    crate::bytes::lemma_find_byte_none(piece@, EQUALS_SIGN);
                    if last {
                        assert((seq![rem])[0] == piece@);
                        assert(spec_query_pairs(seq![rem]) is None);
                    } else {
                        let pieces = seq![piece@] + split_on(qs@.skip(piece_end + 1), AMP);
                        assert(pieces[0] == piece@);
                        assert(spec_query_pairs(pieces) is None);
                    }
                }
                return None;
            }
            Some(e) => {
                proof {
                    crate::bytes::lemma_find_byte_is_first(piece@, EQUALS_SIGN, e as int);
                }
                let k = copy_range(piece.as_slice(), 0, e);
                let v = copy_range(piece.as_slice(), e + 1, piece.len());
                let ghost old_pairs = m.pairs_view();
                m.insert(k, v);
                proof {
                    let pieces = split_on(rem, AMP);
                    assert(pieces[0] == piece@);
                    assert(k@ == piece@.take(e as int));
                    assert(v@ =~= piece@.skip(e + 1));
                    if last {
                        assert(pieces.drop_first() =~= Seq::<Seq<u8>>::empty());
                        assert(spec_query_pairs(Seq::<Seq<u8>>::empty()) == Some(
                            Seq::<(Seq<u8>, Seq<u8>)>::empty(),
                        ));
                        assert(spec_query_pairs(pieces) == Some(
                            seq![(piece@.take(e as int), piece@.skip(e + 1))]
                                + Seq::<(Seq<u8>, Seq<u8>)>::empty(),
                        ));
                        assert(m.pairs_view() =~~= old_pairs + seq![
                            (piece@.take(e as int), piece@.skip(e + 1)),
                        ] + Seq::<(Seq<u8>, Seq<u8>)>::empty());
                    } else {
                        assert(pieces.drop_first() =~~= split_on(qs@.skip(piece_end + 1), AMP));
                        match spec_query_pairs(split_on(qs@.skip(piece_end + 1), AMP)) {
                            Some(rest) => {
                                assert(spec_query_pairs(pieces) == Some(
                                    seq![(piece@.take(e as int), piece@.skip(e + 1))] + rest,
                                ));
                                assert(old_pairs + (seq![
                                    (piece@.take(e as int), piece@.skip(e + 1)),
                                ] + rest) =~~= m.pairs_view() + rest);
                            }
                            None => {
                                assert(spec_query_pairs(pieces) is None);
                            }
                        }
                    }
                }
                if piece_end == qs.len() {
                    done = true;
                } else {
                    pos = piece_end + 1;
                }
            }
        }
    }
    proof {
        assert(spec_query_pairs(split_on(qs@, AMP)) == Some(m.pairs_view()));
    }
    Some(m)
}

/// Parses `method uri version`, as `spec_parse_request_line` describes it.
pub fn parse_request_line(line: &[u8]) -> (r: Result<RequestLine, ParseError>)
    ensures
        match r {
            Ok(rl) => spec_parse_request_line(line@) == Ok::<SpecRequestLine, SpecParseError>(rl@),
            Err(e) => spec_parse_request_line(line@) == Err::<SpecRequestLine, SpecParseError>(e@),
        },
{
    let tokens = split_ws_exec(line);
    if tokens.len() == 0 {
        return Err(ParseError::NotFound("Method".as_bytes_vec()));
    }
    if tokens.len() == 1 {
        return Err(ParseError::NotFound("URI".as_bytes_vec()));
    }
    let uri = &tokens[1];
    proof {
        lemma_deep_index(&tokens, 0);
        lemma_deep_index(&tokens, 1);
        if tokens@.len() > 2 {
            lemma_deep_index(&tokens, 2);
        }
    }
    match find_byte_from(uri.as_slice(), 0, QUESTION_MARK) {
        Some(q) => {
            proof {
                crate::bytes::lemma_find_byte_is_first(uri@, QUESTION_MARK, q as int);
            }
            let qs = copy_range(uri.as_slice(), q + 1, uri.len());
            proof {
                assert(qs@ =~= uri@.skip(q + 1));
            }
            match parse_query(qs.as_slice()) {
                None => Err(
                    ParseError::ParameterError("Parameter found is not key=value".as_bytes_vec()),
                ),
                Some(m) => {
                    if tokens.len() == 2 {
                        return Err(ParseError::NotFound("HTTP version".as_bytes_vec()));
                    }
                    let rl = RequestLine {
                        method: vstd::slice::slice_to_vec(tokens[0].as_slice()),
                        path: copy_range(uri.as_slice(), 0, q),
                        params: Some(m),
                        http_version: vstd::slice::slice_to_vec(tokens[2].as_slice()),
                    };
                    proof {
                        assert(rl.path@ =~= uri@.take(q as int));
                    }
                    Ok(rl)
                }
            }
        }
        None => {
            proof {
                crate::bytes::lemma_find_byte_none(uri@, QUESTION_MARK);
            }
            if tokens.len() == 2 {
                return Err(ParseError::NotFound("HTTP version".as_bytes_vec()));
            }
            Ok(
                RequestLine {
                    method: vstd::slice::slice_to_vec(tokens[0].as_slice()),
                    path: vstd::slice::slice_to_vec(uri.as_slice()),
                    params: None,
                    http_version: vstd::slice::slice_to_vec(tokens[2].as_slice()),
                },
            )
        }
    }
}

/// Collects header pairs from `lines[1..]` up to the first empty line, as
/// `spec_header_pairs` describes them.
pub(crate) fn parse_headers(lines: &Vec<Vec<u8>>) -> (r: Result<KvMap, Vec<u8>>)
    requires
        lines@.len() >= 1,
    ensures
        match r {
            Ok(m) => spec_header_pairs(lines.deep_view().drop_first()) matches Ok(ps) && m@
                == pairs_map(ps),
            Err(l) => spec_header_pairs(lines.deep_view().drop_first()) == Err::<
                Seq<(Seq<u8>, Seq<u8>)>,
                Seq<u8>,
            >(l@),
        },
{
    let ghost all = lines.deep_view().drop_first();
    let mut m = KvMap::new();
    let mut i: usize = 1;
    proof {
        assert(all.skip(0) =~~= all);
    }
    while i < lines.len()
        invariant
            1 <= i <= lines@.len(),
            all == lines.deep_view().drop_first(),
            lines.deep_view().len() == lines@.len(),
            match spec_header_pairs(all.skip(i - 1)) {
                Ok(rest) => spec_header_pairs(all) == Ok::<_, Seq<u8>>(m.pairs_view() + rest),
                Err(l) => spec_header_pairs(all) == Err::<Seq<(Seq<u8>, Seq<u8>)>, _>(l),
            },
        decreases lines@.len() - i,
    {
        let ghost rem = all.skip(i - 1);
        let line = &lines[i];
        proof {
            lemma_deep_index(lines, i as int);
            assert(rem.len() == all.len() - (i - 1));
            assert(rem[0] == all[i - 1]);
            assert(all[i - 1] == lines.deep_view()[i as int]);
            assert(rem.drop_first() =~~= all.skip(i as int));
        }
        if line.len() == 0 {
            proof {
                assert(spec_header_pairs(rem) == Ok::<_, Seq<u8>>(Seq::<(Seq<u8>, Seq<u8>)>::empty()));
                assert(m.pairs_view() + Seq::<(Seq<u8>, Seq<u8>)>::empty() =~~= m.pairs_view());
            }
            return Ok(m);
        }
        let sep = ": ".as_bytes();
        proof {
            assert(sep@ == colon_space());
        }
        match find_subseq_exec(line.as_slice(), sep) {
            None => {
                proof {
                    assert(spec_header_pairs(rem) == Err::<Seq<(Seq<u8>, Seq<u8>)>, Seq<u8>>(
                        rem[0],
                    ));
                }
                return Err(vstd::slice::slice_to_vec(line.as_slice()));
            }
            Some(j) => {
                proof {
                    lemma_colon_space_len();
                }
                let k = copy_range(line.as_slice(), 0, j);
                let v = copy_range(line.as_slice(), j + 2, line.len());
                let ghost old_pairs = m.pairs_view();
                m.insert(k, v);
                proof {
                    assert(k@ == rem[0].take(j as int));
                    assert(v@ =~= rem[0].skip(j + 2));
                    match spec_header_pairs(all.skip(i as int)) {
                        Ok(rest) => {
                            assert(spec_header_pairs(rem) == Ok::<_, Seq<u8>>(
                                seq![(rem[0].take(j as int), rem[0].skip(j + 2))] + rest,
                            ));
                            assert(old_pairs + (seq![(rem[0].take(j as int), rem[0].skip(j + 2))]
                                + rest) =~~= m.pairs_view() + rest);
                        }
                        Err(l) => {
                            assert(spec_header_pairs(rem) == Err::<Seq<(Seq<u8>, Seq<u8>)>, _>(l));
                        }
                    }
                }
                i = i + 1;
            }
        }
    }
    proof {
        assert(all.skip(i - 1).len() == 0);
        assert(spec_header_pairs(all.skip(i - 1)) == Ok::<_, Seq<u8>>(
            Seq::<(Seq<u8>, Seq<u8>)>::empty(),
        ));
        assert(m.pairs_view() + Seq::<(Seq<u8>, Seq<u8>)>::empty() =~~= m.pairs_view());
    }
    Ok(m)
}

impl Request {
    /// Parses a whole request, as `spec_parse_request` describes it.
    pub fn try_parse(request: &[u8]) -> (r: Result<Request, ParseError>)
        ensures
            match r {
                Ok(req) => spec_parse_request(request@) == Ok::<SpecRequest, SpecParseError>(req@),
                Err(e) => spec_parse_request(request@) == Err::<SpecRequest, SpecParseError>(e@),
            },
    {
        let lines = split_lines_exec(request);
        if lines.len() == 0 {
            return Err(ParseError::NotFound("request line".as_bytes_vec()));
        }
        proof {
            lemma_deep_index(&lines, 0);
        }
        if lines[0].len() == 0 {
            return Err(ParseError::NotFound("request line".as_bytes_vec()));
        }
        let request_line = match parse_request_line(lines[0].as_slice()) {
            Ok(rl) => rl,
            Err(e) => {
                return Err(e);
            }
        };
        let headers = match parse_headers(&lines) {
            Ok(m) => m,
            Err(_) => {
                return Err(ParseError::ParameterError("error in header".as_bytes_vec()));
            }
        };
        let boundary = "\r\n\r\n".as_bytes();
        proof {
            assert(boundary@ == crlfcrlf());
        }
        let body = match find_subseq_exec(request, boundary) {
            Some(i) => {
                proof {
                    lemma_crlfcrlf_len();
                }
                let n = request.len();
                let b = copy_range(request, i + 4, n);
                proof {
                    assert(b@ =~= request@.skip(i + 4));
                }
                Some(b)
            }
            None => None,
        };
        Ok(Request { request_line, headers, body })
    }
}

} // verus!
