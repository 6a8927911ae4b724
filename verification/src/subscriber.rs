//! Building the outbound subscribe/unsubscribe request.
//!
//! The body is form-urlencoded from the callback URL, the mode and the
//! topic URL; the request wraps it in a literal `POST / HTTP/1.1` with the
//! exact byte length in `Content-Length`. Sending it and the hub's later
//! acknowledgement are handled elsewhere; nothing here waits for a reply.

use vstd::prelude::*;
use vstd::string::StrSliceExecFns;
use vstd::string::StringSliceAdditionalSpecFns;

use crate::bytes::{append_bytes, dec_digits, to_decimal};
use crate::Mode;

verus! {

/// The form-urlencoded body announcing `mode` for `topic` at `callback`.
pub open spec fn spec_subscription_body(callback: Seq<u8>, mode: Mode, topic: Seq<u8>) -> Seq<u8> {
    "hub.callback=".spec_bytes() + callback + "&hub.mode=".spec_bytes() + mode.spec_text()
        + "&hub.topic=".spec_bytes() + topic
}

/// The full POST request carrying `body` to `host`, with the exact byte
/// length of the body in `Content-Length`.
pub open spec fn spec_post_request(host: Seq<u8>, body: Seq<u8>) -> Seq<u8> {
    "POST / HTTP/1.1\r\nHost: ".spec_bytes() + host
        + "\r\nContent-Type: application/x-www-form-urlencoded\r\nContent-Length: ".spec_bytes()
        + dec_digits(body.len() as int) + "\r\n\r\n".spec_bytes() + body
}

/// Builds the subscription body, as `spec_subscription_body` describes.
pub fn build_subscription_body(callback: &[u8], mode: Mode, topic: &[u8]) -> (r: Vec<u8>)
    ensures
        r@ == spec_subscription_body(callback@, mode, topic@),
{
    let mut r = "hub.callback=".as_bytes_vec();
    append_bytes(&mut r, callback);
    append_bytes(&mut r, "&hub.mode=".as_bytes());
    let mode_text = mode.as_text();
    append_bytes(&mut r, mode_text.as_slice());
    append_bytes(&mut r, "&hub.topic=".as_bytes());
    append_bytes(&mut r, topic);
    r
}

/// Builds the full POST request, as `spec_post_request` describes.
pub fn build_post_request(host: &[u8], body: &[u8]) -> (r: Vec<u8>)
    ensures
        r@ == spec_post_request(host@, body@),
{
    let mut r = "POST / HTTP/1.1\r\nHost: ".as_bytes_vec();
    append_bytes(&mut r, host);
    append_bytes(
        &mut r,
        "\r\nContent-Type: application/x-www-form-urlencoded\r\nContent-Length: ".as_bytes(),
    );
    let len = to_decimal(body.len() as u64);
    append_bytes(&mut r, len.as_slice());
    append_bytes(&mut r, "\r\n\r\n".as_bytes());
    append_bytes(&mut r, body);
    r
}

} // verus!
