//! The notification decoder on concrete bodies.

use websub::error::{Error, NotificationError};
use websub::handler::handle_message;
use websub::notification::Notification;
use websub::parse::parse_xml;

fn feed_body(published: &str, updated: &str) -> Vec<u8> {
    let mut body = String::new();
    body.push_str("<feed>\n");
    body.push_str("  <yt:videoId>vid123</yt:videoId>\n");
    body.push_str("  <yt:channelId>chan456</yt:channelId>\n");
    body.push_str("  <title>A fine video</title>\n");
    body.push_str("  <name>Some Author</name>\n");
    body.push_str(&format!("  <published>{}</published>\n", published));
    body.push_str(&format!("  <updated>{}</updated>\n", updated));
    body.push_str("</feed>\n");
    body.into_bytes()
}

#[test]
fn tag_scan_extracts_single_line_values() {
    let body = feed_body("2023-05-01T10:00:00Z", "2023-05-01T10:01:00Z");
    let m = parse_xml(&body);
    assert_eq!(m.get(b"yt:videoId"), Some(b"vid123".to_vec()));
    assert_eq!(m.get(b"yt:channelId"), Some(b"chan456".to_vec()));
    assert_eq!(m.get(b"title"), Some(b"A fine video".to_vec()));
    assert_eq!(m.get(b"name"), Some(b"Some Author".to_vec()));
    assert_eq!(m.get(b"published"), Some(b"2023-05-01T10:00:00Z".to_vec()));
    assert_eq!(m.get(b"updated"), Some(b"2023-05-01T10:01:00Z".to_vec()));
}

#[test]
fn tag_scan_skips_lines_without_a_closing_slot() {
    let m = parse_xml(b"<title>\n<name>n</name>\n");
    assert_eq!(m.get(b"title"), None);
    assert_eq!(m.get(b"name"), Some(b"n".to_vec()));
}

#[test]
fn decoded_fields_match_the_scanned_tags() {
    let body = feed_body("2023-05-01T10:00:00Z", "2023-05-01T10:01:00Z");
    let n = Notification::try_parse(&body).unwrap();
    assert_eq!(n.video_id, b"vid123".to_vec());
    assert_eq!(n.channel_id, b"chan456".to_vec());
    assert_eq!(n.video_title, b"A fine video".to_vec());
    assert_eq!(n.channel_name, b"Some Author".to_vec());
    assert_eq!(n.raw, body);
}

#[test]
fn timestamps_become_unix_nanoseconds() {
    let body = feed_body("1970-01-01T00:00:01Z", "1970-01-01T00:00:02Z");
    let n = Notification::try_parse(&body).unwrap();
    assert_eq!(n.published, 1_000_000_000);
    assert_eq!(n.updated, 2_000_000_000);
}

#[test]
fn under_five_minutes_is_new() {
    let body = feed_body("2023-05-01T10:00:00Z", "2023-05-01T10:04:59Z");
    let n = Notification::try_parse(&body).unwrap();
    assert!(n.is_new());
}

#[test]
fn exactly_five_minutes_is_not_new() {
    let body = feed_body("2023-05-01T10:00:00Z", "2023-05-01T10:05:00Z");
    let n = Notification::try_parse(&body).unwrap();
    assert!(!n.is_new());
}

#[test]
fn negative_distance_counts_as_new_and_does_not_panic() {
    let body = feed_body("2023-05-01T10:00:00Z", "2023-04-30T10:00:00Z");
    let n = Notification::try_parse(&body).unwrap();
    assert!(n.is_new());
}

#[test]
fn missing_tag_is_named_without_brackets() {
    let body = b"<feed>\n<yt:videoId>v</yt:videoId>\n</feed>\n";
    assert_eq!(
        Notification::try_parse(body).unwrap_err(),
        Error::Notification(NotificationError::MissingParameter(b"yt:channelId".to_vec()))
    );
}

#[test]
fn first_missing_tag_wins() {
    assert_eq!(
        Notification::try_parse(b"<feed></feed>").unwrap_err(),
        Error::Notification(NotificationError::MissingParameter(b"yt:videoId".to_vec()))
    );
}

#[test]
fn malformed_timestamp_is_a_datetime_error() {
    let body = feed_body("not-a-date", "2023-05-01T10:00:00Z");
    assert_eq!(
        Notification::try_parse(&body).unwrap_err(),
        Error::Notification(NotificationError::DateTimeError)
    );
}

#[test]
fn describe_renders_the_textual_fields() {
    let body = feed_body("2023-05-01T10:00:00Z", "2023-05-01T10:01:00Z");
    let n = Notification::try_parse(&body).unwrap();
    assert_eq!(
        n.describe(),
        b"Title: A fine video\nAuthor: Some Author\n#id: vid123; channel: chan456\n".to_vec()
    );
}

fn post_with(body: &[u8]) -> Vec<u8> {
    let mut msg = b"POST / HTTP/1.1\r\n\r\n".to_vec();
    msg.extend_from_slice(body);
    msg
}

#[test]
fn post_notification_is_delivered_with_new_only_disabled() {
    let input = post_with(&feed_body("2023-05-01T10:00:00Z", "2023-06-01T10:00:00Z"));
    let (reply, outcome) = handle_message(&input, false);
    assert_eq!(reply, Some(b"HTTP/1.1 200 OK\r\n\r\n".to_vec()));
    let n = outcome.unwrap().expect("a notification should be delivered");
    assert_eq!(n.video_id, b"vid123".to_vec());
}

#[test]
fn edit_only_update_is_dropped_in_new_only_mode() {
    let input = post_with(&feed_body("2023-05-01T10:00:00Z", "2023-06-01T10:00:00Z"));
    let (reply, outcome) = handle_message(&input, true);
    assert_eq!(reply, Some(b"HTTP/1.1 200 OK\r\n\r\n".to_vec()));
    assert!(matches!(outcome, Ok(None)));
}

#[test]
fn fresh_update_passes_new_only_mode() {
    let input = post_with(&feed_body("2023-05-01T10:00:00Z", "2023-05-01T10:01:00Z"));
    let (_, outcome) = handle_message(&input, true);
    let n = outcome.unwrap().expect("a fresh notification should pass");
    assert_eq!(n.channel_id, b"chan456".to_vec());
}

#[test]
fn undecodable_post_body_still_gets_the_ok_reply() {
    let input = post_with(b"not xml at all");
    let (reply, outcome) = handle_message(&input, false);
    assert_eq!(reply, Some(b"HTTP/1.1 200 OK\r\n\r\n".to_vec()));
    assert!(matches!(outcome, Err(Error::Notification(_))));
}
