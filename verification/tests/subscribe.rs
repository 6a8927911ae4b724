//! The outbound builders, the configuration snapshot and the mode text.

use websub::config::{CfgServer, CfgSubs, Config};
use websub::request::parse_request_line;
use websub::subscriber::{build_post_request, build_subscription_body};
use websub::Mode;

#[test]
fn mode_text_is_the_form_value() {
    assert_eq!(Mode::Subscribe.as_text(), b"subscribe".to_vec());
    assert_eq!(Mode::Unsubscribe.as_text(), b"unsubscribe".to_vec());
}

#[test]
fn subscription_body_is_form_encoded() {
    let body = build_subscription_body(
        b"http://cb.example:7878",
        Mode::Subscribe,
        b"https://www.youtube.com/xml/feeds/videos.xml?channel_id=abc",
    );
    assert_eq!(
        body,
        b"hub.callback=http://cb.example:7878&hub.mode=subscribe&hub.topic=https://www.youtube.com/xml/feeds/videos.xml?channel_id=abc".to_vec()
    );
}

#[test]
fn built_body_parses_back_to_its_inputs() {
    let callback = b"http://cb.example:7878".to_vec();
    let topic = b"https://www.youtube.com/xml/feeds/videos.xml?channel_id=abc".to_vec();
    let body = build_subscription_body(&callback, Mode::Subscribe, &topic);

    let mut line = b"GET /?".to_vec();
    line.extend_from_slice(&body);
    line.extend_from_slice(b" HTTP/1.1");
    let rl = parse_request_line(&line).unwrap();
    let params = rl.params.unwrap();
    assert_eq!(params.get(b"hub.callback"), Some(callback));
    assert_eq!(params.get(b"hub.mode"), Some(b"subscribe".to_vec()));
    assert_eq!(params.get(b"hub.topic"), Some(topic));
}

#[test]
fn unsubscribe_round_trips_too() {
    let body = build_subscription_body(b"cb", Mode::Unsubscribe, b"topic");
    let mut line = b"GET /?".to_vec();
    line.extend_from_slice(&body);
    line.extend_from_slice(b" HTTP/1.1");
    let rl = parse_request_line(&line).unwrap();
    let params = rl.params.unwrap();
    assert_eq!(params.get(b"hub.mode"), Some(b"unsubscribe".to_vec()));
}

#[test]
fn post_request_carries_the_exact_byte_length() {
    let request = build_post_request(b"pubsubhubbub.appspot.com", b"hello body!");
    assert_eq!(
        request,
        b"POST / HTTP/1.1\r\nHost: pubsubhubbub.appspot.com\r\nContent-Type: application/x-www-form-urlencoded\r\nContent-Length: 11\r\n\r\nhello body!".to_vec()
    );
}

#[test]
fn post_request_length_of_empty_body_is_zero() {
    let request = build_post_request(b"h", b"");
    assert_eq!(
        request,
        b"POST / HTTP/1.1\r\nHost: h\r\nContent-Type: application/x-www-form-urlencoded\r\nContent-Length: 0\r\n\r\n".to_vec()
    );
}

#[test]
fn server_defaults_match_the_local_setup() {
    let s = CfgServer::default();
    assert_eq!(s.port, 7878);
    assert_eq!(s.host, b"127.0.0.1".to_vec());
    assert_eq!(s.callback, b"http://127.0.0.1;7878".to_vec());
}

#[test]
fn subscription_defaults_point_at_the_public_hub() {
    let y = CfgSubs::default();
    assert_eq!(y.hub_address(), b"https://pubsubhubbub.appspot.com".to_vec());
    assert_eq!(
        y.topic_address(b"abc"),
        b"https://www.youtube.com/xml/feeds/videos.xml?channel_id=abc".to_vec()
    );
}

#[test]
fn addresses_join_host_and_port() {
    let c = Config::default();
    assert_eq!(c.server_address(), b"127.0.0.1:7878".to_vec());
    assert_eq!(c.callback_address(), b"http://127.0.0.1;7878:7878".to_vec());
}
