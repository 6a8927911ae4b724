//! The protocol's fixed byte strings, named at the spec level.
//!
//! Each spec function names the bytes of one literal; exec code obtains the
//! same bytes with `str::as_bytes`, whose contract ties them to
//! `spec_bytes`.

use vstd::prelude::*;
use vstd::string::StringSliceAdditionalSpecFns;

verus! {

/// The boundary between head and body of a message.
pub open spec fn crlfcrlf() -> Seq<u8> {
    "\r\n\r\n".spec_bytes()
}

/// The separator inside a header line.
pub open spec fn colon_space() -> Seq<u8> {
    ": ".spec_bytes()
}

/// The prefix that classifies a message as a response.
pub open spec fn http_prefix() -> Seq<u8> {
    "HTTP/".spec_bytes()
}

/// The verification-of-intent method.
pub open spec fn get_method() -> Seq<u8> {
    "GET".spec_bytes()
}

/// The notification method.
pub open spec fn post_method() -> Seq<u8> {
    "POST".spec_bytes()
}

/// The gated header's name.
pub open spec fn from_header() -> Seq<u8> {
    "From".spec_bytes()
}

/// The expected sender named in that header.
pub open spec fn googlebot() -> Seq<u8> {
    "googlebot(at)googlebot.com".spec_bytes()
}

/// The query key whose value is echoed back.
pub open spec fn challenge_key() -> Seq<u8> {
    "hub.challenge".spec_bytes()
}

/// The query key that signals a rejected subscription.
pub open spec fn reason_key() -> Seq<u8> {
    "hub.reason".spec_bytes()
}

/// The reply written for a passed verification or an accepted notification;
/// an echoed challenge is appended to it.
pub open spec fn ok_reply() -> Seq<u8> {
    "HTTP/1.1 200 OK\r\n\r\n".spec_bytes()
}

/// The status code with which the hub accepts a subscription.
pub open spec fn accepted_code() -> Seq<u8> {
    "202".spec_bytes()
}

/// The bytes of an ASCII literal are its characters, one byte each.
pub proof fn ascii_bytes_facts(s: &str)
    requires
        vstd::string::is_ascii(s),
    ensures
        s.spec_bytes().len() == s@.len(),
        forall|i: int|
            #![trigger s.spec_bytes()[i]]
            0 <= i < s@.len() ==> s.spec_bytes()[i] == s@[i] as u8,
{
    vstd::utf8::is_ascii_chars_encode_utf8(s@);
}

/// The head-body boundary is four bytes long.
pub proof fn lemma_crlfcrlf_len()
    ensures
        crlfcrlf().len() == 4,
{
    reveal_strlit("\r\n\r\n");
    assert(vstd::string::is_ascii("\r\n\r\n"));
    ascii_bytes_facts("\r\n\r\n");
}

/// The header separator is two bytes long.
pub proof fn lemma_colon_space_len()
    ensures
        colon_space().len() == 2,
{
    reveal_strlit(": ");
    assert(vstd::string::is_ascii(": "));
    ascii_bytes_facts(": ");
}

} // verus!
