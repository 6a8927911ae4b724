//! End-to-end reactions of one connection's bytes.

use websub::error::{Error, HandleConnectionError, ParseError};
use websub::handler::handle_message;

#[test]
fn challenge_is_echoed_verbatim() {
    let input = b"GET /?hub.challenge=xyz HTTP/1.1\r\n\r\n";
    let (reply, outcome) = handle_message(input, false);
    assert_eq!(reply, Some(b"HTTP/1.1 200 OK\r\n\r\nxyz".to_vec()));
    match outcome {
        Ok(None) => {}
        other => panic!("expected Ok(None), got {:?}", other),
    }
}

#[test]
fn rejection_reason_is_reported_and_nothing_written() {
    let input = b"GET /?hub.reason=denied HTTP/1.1\r\n\r\n";
    let (reply, outcome) = handle_message(input, false);
    assert_eq!(reply, None);
    match outcome {
        Err(Error::SubscriptionError(reason)) => assert_eq!(reason, b"denied".to_vec()),
        other => panic!("expected a subscription error, got {:?}", other),
    }
}

#[test]
fn rejection_wins_over_challenge() {
    let input = b"GET /?hub.challenge=abc&hub.reason=denied HTTP/1.1\r\n\r\n";
    let (reply, outcome) = handle_message(input, false);
    assert_eq!(reply, None);
    match outcome {
        Err(Error::SubscriptionError(reason)) => assert_eq!(reason, b"denied".to_vec()),
        other => panic!("expected a subscription error, got {:?}", other),
    }
}

#[test]
fn get_without_query_is_a_parameter_error() {
    let input = b"GET / HTTP/1.1\r\n\r\n";
    let (reply, outcome) = handle_message(input, false);
    assert_eq!(reply, None);
    assert_eq!(
        outcome.unwrap_err(),
        Error::Parse(ParseError::ParameterError(b"No paramater in request".to_vec()))
    );
}

#[test]
fn get_without_challenge_names_the_missing_key() {
    let input = b"GET /?foo=bar HTTP/1.1\r\n\r\n";
    let (reply, outcome) = handle_message(input, false);
    assert_eq!(reply, None);
    assert_eq!(
        outcome.unwrap_err(),
        Error::Parse(ParseError::NotFound(b"hub.challenge".to_vec()))
    );
}

#[test]
fn mismatched_from_header_is_rejected() {
    let input = b"GET /?hub.challenge=xyz HTTP/1.1\r\nFrom: somebody-else\r\n\r\n";
    let (reply, outcome) = handle_message(input, false);
    assert_eq!(reply, None);
    assert_eq!(
        outcome.unwrap_err(),
        Error::HandleConnection(HandleConnectionError::Empty)
    );
}

#[test]
fn matching_from_header_is_accepted() {
    let input = b"GET /?hub.challenge=xyz HTTP/1.1\r\nFrom: googlebot(at)googlebot.com\r\n\r\n";
    let (reply, outcome) = handle_message(input, false);
    assert_eq!(reply, Some(b"HTTP/1.1 200 OK\r\n\r\nxyz".to_vec()));
    assert!(matches!(outcome, Ok(None)));
}

#[test]
fn unhandled_method_yields_nothing() {
    let input = b"PUT /thing HTTP/1.1\r\n\r\n";
    let (reply, outcome) = handle_message(input, false);
    assert_eq!(reply, None);
    assert!(matches!(outcome, Ok(None)));
}

#[test]
fn post_without_body_is_an_error_and_no_reply() {
    let input = b"POST / HTTP/1.1";
    let (reply, outcome) = handle_message(input, false);
    assert_eq!(reply, None);
    assert_eq!(
        outcome.unwrap_err(),
        Error::HandleConnection(HandleConnectionError::NoBodyError)
    );
}

#[test]
fn response_404_reports_body_as_reason() {
    let input = b"HTTP/1.1 404 Not Found\r\n\r\nbad topic";
    let (reply, outcome) = handle_message(input, false);
    assert_eq!(reply, None);
    match outcome {
        Err(Error::SubscriptionError(reason)) => assert_eq!(reason, b"bad topic".to_vec()),
        other => panic!("expected a subscription error, got {:?}", other),
    }
}

#[test]
fn response_500_reports_body_as_reason() {
    let input = b"HTTP/1.1 503 Unavailable\r\n\r\ntry later";
    let (_, outcome) = handle_message(input, false);
    match outcome {
        Err(Error::SubscriptionError(reason)) => assert_eq!(reason, b"try later".to_vec()),
        other => panic!("expected a subscription error, got {:?}", other),
    }
}

#[test]
fn response_4xx_without_body_is_a_no_body_error() {
    let input = b"HTTP/1.1 404 NotFound";
    let (_, outcome) = handle_message(input, false);
    assert_eq!(
        outcome.unwrap_err(),
        Error::HandleConnection(HandleConnectionError::NoBodyError)
    );
}

#[test]
fn response_202_is_quietly_accepted() {
    let input = b"HTTP/1.1 202 Accepted\r\n\r\n";
    let (reply, outcome) = handle_message(input, false);
    assert_eq!(reply, None);
    assert!(matches!(outcome, Ok(None)));
}

#[test]
fn response_other_status_is_left_unhandled() {
    let input = b"HTTP/1.1 301 Moved\r\n\r\nsomewhere";
    let (reply, outcome) = handle_message(input, false);
    assert_eq!(reply, None);
    assert!(matches!(outcome, Ok(None)));
}

#[test]
fn response_with_mismatched_from_is_rejected() {
    let input = b"HTTP/1.1 202 Accepted\r\nFrom: stranger\r\n\r\n";
    let (_, outcome) = handle_message(input, false);
    assert_eq!(
        outcome.unwrap_err(),
        Error::HandleConnection(HandleConnectionError::Empty)
    );
}

#[test]
fn malformed_utf8_yields_a_decoding_error() {
    let input = [0x47u8, 0x45, 0x54, 0xFF, 0xFE, 0x20];
    let (reply, outcome) = handle_message(&input, false);
    assert_eq!(reply, None);
    assert_eq!(
        outcome.unwrap_err(),
        Error::HandleConnection(HandleConnectionError::FormatUtf8Error)
    );
}

#[test]
fn empty_message_is_a_parse_error_not_a_panic() {
    let (reply, outcome) = handle_message(b"", false);
    assert_eq!(reply, None);
    assert_eq!(
        outcome.unwrap_err(),
        Error::Parse(ParseError::NotFound(b"request line".to_vec()))
    );
}
