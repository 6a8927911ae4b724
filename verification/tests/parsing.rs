//! The request and response parsers on concrete texts.

use websub::error::ParseError;
use websub::framer::decode_message;
use websub::message::Message;
use websub::request::{parse_request_line, Request};
use websub::response::Response;

#[test]
fn request_line_splits_method_path_query_version() {
    let rl = parse_request_line(b"GET /callback?hub.challenge=42 HTTP/1.1").unwrap();
    assert_eq!(rl.method, b"GET".to_vec());
    assert_eq!(rl.path, b"/callback".to_vec());
    assert_eq!(rl.http_version, b"HTTP/1.1".to_vec());
    let params = rl.params.unwrap();
    assert_eq!(params.get(b"hub.challenge"), Some(b"42".to_vec()));
    assert_eq!(params.get(b"absent"), None);
}

#[test]
fn duplicate_query_keys_keep_the_last_value() {
    let rl = parse_request_line(b"GET /?a=1&b=2&a=3 HTTP/1.1").unwrap();
    let params = rl.params.unwrap();
    assert_eq!(params.get(b"a"), Some(b"3".to_vec()));
    assert_eq!(params.get(b"b"), Some(b"2".to_vec()));
}

#[test]
fn uri_without_query_has_no_params() {
    let rl = parse_request_line(b"GET /path HTTP/1.1").unwrap();
    assert_eq!(rl.path, b"/path".to_vec());
    assert!(rl.params.is_none());
}

#[test]
fn query_value_may_hold_an_equals_sign() {
    let rl = parse_request_line(b"GET /?u=a=b HTTP/1.1").unwrap();
    let params = rl.params.unwrap();
    assert_eq!(params.get(b"u"), Some(b"a=b".to_vec()));
}

#[test]
fn missing_tokens_are_named_in_order() {
    assert_eq!(
        parse_request_line(b"").unwrap_err(),
        ParseError::NotFound(b"Method".to_vec())
    );
    assert_eq!(
        parse_request_line(b"GET").unwrap_err(),
        ParseError::NotFound(b"URI".to_vec())
    );
    assert_eq!(
        parse_request_line(b"GET /").unwrap_err(),
        ParseError::NotFound(b"HTTP version".to_vec())
    );
}

#[test]
fn malformed_query_pair_is_an_error() {
    assert_eq!(
        parse_request_line(b"GET /?noequals HTTP/1.1").unwrap_err(),
        ParseError::ParameterError(b"Parameter found is not key=value".to_vec())
    );
}

#[test]
fn request_headers_and_body_are_separated() {
    let text = b"POST /cb HTTP/1.1\r\nHost: example\r\nContent-Type: text/plain\r\n\r\npayload";
    let req = Request::try_parse(text).unwrap();
    assert_eq!(req.headers.get(b"Host"), Some(b"example".to_vec()));
    assert_eq!(req.headers.get(b"Content-Type"), Some(b"text/plain".to_vec()));
    assert_eq!(req.body, Some(b"payload".to_vec()));
}

#[test]
fn request_without_boundary_has_no_body() {
    let req = Request::try_parse(b"GET /x HTTP/1.1\r\nHost: h").unwrap();
    assert_eq!(req.body, None);
}

#[test]
fn request_header_without_separator_is_an_error() {
    let text = b"GET /x HTTP/1.1\r\nBadHeader\r\n\r\n";
    assert_eq!(
        Request::try_parse(text).unwrap_err(),
        ParseError::ParameterError(b"error in header".to_vec())
    );
}

#[test]
fn empty_request_names_the_request_line() {
    assert_eq!(
        Request::try_parse(b"").unwrap_err(),
        ParseError::NotFound(b"request line".to_vec())
    );
}

#[test]
fn response_line_splits_into_three_tokens() {
    let resp = Response::parse(b"HTTP/1.1 202 Accepted\r\n\r\n").unwrap();
    assert_eq!(resp.status_line.http_version, b"HTTP/1.1".to_vec());
    assert_eq!(resp.status_line.status_code, b"202".to_vec());
    assert_eq!(resp.status_line.status_message, b"Accepted".to_vec());
    assert_eq!(resp.body, Some(b"".to_vec()));
}

#[test]
fn response_missing_tokens_are_named_in_order() {
    assert_eq!(
        Response::parse(b"HTTP/1.1").unwrap_err(),
        ParseError::NotFound(b"Status code".to_vec())
    );
    assert_eq!(
        Response::parse(b"HTTP/1.1 200").unwrap_err(),
        ParseError::NotFound(b"Status message".to_vec())
    );
    assert_eq!(
        Response::parse(b"").unwrap_err(),
        ParseError::NotFound(b"HTTP version".to_vec())
    );
}

#[test]
fn response_header_without_separator_names_the_line() {
    assert_eq!(
        Response::parse(b"HTTP/1.1 200 OK\r\nOops\r\n\r\n").unwrap_err(),
        ParseError::HeaderError(b"Oops".to_vec())
    );
}

#[test]
fn classifier_tells_responses_from_requests() {
    match Message::from_str(b"HTTP/1.1 200 OK\r\n\r\n").unwrap() {
        Message::Response(_) => {}
        Message::Request(_) => panic!("classified a response as a request"),
    }
    match Message::from_str(b"GET /?a=1 HTTP/1.1\r\n\r\n").unwrap() {
        Message::Request(_) => {}
        Message::Response(_) => panic!("classified a request as a response"),
    }
}

#[test]
fn decoder_strips_padding_bytes() {
    let mut raw = b"GET /?a=1 HTTP/1.1\r\n\r\n".to_vec();
    raw.extend_from_slice(&[0u8; 40]);
    let decoded = decode_message(&raw).unwrap();
    assert_eq!(decoded, b"GET /?a=1 HTTP/1.1\r\n\r\n".to_vec());
}

#[test]
fn decoder_rejects_invalid_utf8() {
    let raw = [0xC3u8, 0x28, 0x00];
    assert!(decode_message(&raw).is_err());
}

#[test]
fn kvmap_keeps_pairs_but_last_value_wins() {
    let mut m = websub::kvmap::KvMap::new();
    m.insert(b"k".to_vec(), b"first".to_vec());
    m.insert(b"k".to_vec(), b"second".to_vec());
    assert_eq!(m.pair_count(), 2);
    assert_eq!(m.get(b"k"), Some(b"second".to_vec()));
    assert!(!m.contains_key(b"other"));
}
