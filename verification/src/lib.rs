//! A WebSub (PubSubHubbub) endpoint's protocol core, verified.
//!
//! The library answers a hub's verification-of-intent handshake, decodes
//! pushed content-update notifications, and builds the outbound
//! subscribe/unsubscribe request — all without an HTTP library: framing,
//! request and response parsing and query-string decoding are hand-rolled
//! over bytes, and each step is proved against a spec function that fixes
//! its result for every input. Sockets, worker threads and configuration
//! files stay outside; callers hand in raw bytes and take back the reply
//! to write and the value or error to forward.

pub mod bytes;
pub mod config;
pub mod error;
pub mod framer;
pub mod handler;
pub mod kvmap;
pub mod laws;
pub mod message;
pub mod notification;
pub mod parse;
pub mod request;
pub mod response;
pub mod subscriber;
pub mod text;

use vstd::prelude::*;
use vstd::string::StrSliceExecFns;
use vstd::string::StringSliceAdditionalSpecFns;

verus! {

/// Whether an outbound request to the hub asks to begin or end a subscription.
#[derive(Debug, Clone, Copy, PartialEq, Eq, Structural)]
pub enum Mode {
    Subscribe,
    Unsubscribe,
}

impl Mode {
    /// The bytes of `subscribe` or `unsubscribe`, as carried in `hub.mode`.
    pub open spec fn spec_text(self) -> Seq<u8> {
        match self {
            Mode::Subscribe => "subscribe".spec_bytes(),
            Mode::Unsubscribe => "unsubscribe".spec_bytes(),
        }
    }

    /// The form-encoded value carried in `hub.mode`.
    pub fn as_text(&self) -> (r: Vec<u8>)
        ensures
            r@ == self.spec_text(),
    {
        match self {
            Mode::Subscribe => "subscribe".as_bytes_vec(),
            Mode::Unsubscribe => "unsubscribe".as_bytes_vec(),
        }
    }
}

} // verus!
