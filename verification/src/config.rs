//! The configuration snapshot the core consumes.
//!
//! Loading and reloading a configuration file belong to the caller; the
//! core only reads a fully-formed snapshot: listen host and port, public
//! callback URL, and the per-publisher hub and topic-template URLs.

use vstd::prelude::*;
use vstd::string::StrSliceExecFns;
use vstd::string::StringSliceAdditionalSpecFns;

use crate::bytes::{append_bytes, dec_digits, to_decimal};

verus! {

/// Where the server listens and how it can be reached back.
#[derive(Debug, Clone)]
pub struct CfgServer {
    /// The listening port.
    pub port: u16,
    /// The listening host.
    pub host: Vec<u8>,
    /// The public callback base URL.
    pub callback: Vec<u8>,
}

impl Default for CfgServer {
    /// The local defaults.
    fn default() -> (r: CfgServer)
        ensures
            r.port == 7878,
            r.host@ == "127.0.0.1".spec_bytes(),
            r.callback@ == "http://127.0.0.1;7878".spec_bytes(),
    {
        CfgServer {
            port: 7878,
            host: "127.0.0.1".as_bytes_vec(),
            callback: "http://127.0.0.1;7878".as_bytes_vec(),
        }
    }
}

/// The per-publisher subscription endpoints.
#[derive(Debug, Clone)]
pub struct CfgSubs {
    /// The hub's base URL.
    pub hub: Vec<u8>,
    /// The topic URL template; an identifier is appended to it.
    pub topic: Vec<u8>,
}

impl Default for CfgSubs {
    /// The public hub and topic template.
    fn default() -> (r: CfgSubs)
        ensures
            r.hub@ == "https://pubsubhubbub.appspot.com".spec_bytes(),
            r.topic@ == "https://www.youtube.com/xml/feeds/videos.xml?channel_id=".spec_bytes(),
    {
        CfgSubs {
            hub: "https://pubsubhubbub.appspot.com".as_bytes_vec(),
            topic: "https://www.youtube.com/xml/feeds/videos.xml?channel_id=".as_bytes_vec(),
        }
    }
}

impl CfgSubs {
    /// The topic URL for `id`: the template with the identifier appended.
    pub fn topic_address(&self, id: &[u8]) -> (r: Vec<u8>)
        ensures
            r@ == self.topic@ + id@,
    {
        let mut r = vstd::slice::slice_to_vec(self.topic.as_slice());
        append_bytes(&mut r, id);
        r
    }

    /// The hub's base URL.
    pub fn hub_address(&self) -> (r: Vec<u8>)
        ensures
            r@ == self.hub@,
    {
        vstd::slice::slice_to_vec(self.hub.as_slice())
    }
}

/// The whole configuration snapshot.
#[derive(Debug, Clone)]
pub struct Config {
    /// The server's own addresses.
    pub server: CfgServer,
    /// The publisher's endpoints.
    pub youtube: CfgSubs,
}

impl Default for Config {
    /// The defaults of both parts.
    fn default() -> (r: Config)
        ensures
            r.server.port == 7878,
            r.server.host@ == "127.0.0.1".spec_bytes(),
            r.server.callback@ == "http://127.0.0.1;7878".spec_bytes(),
            r.youtube.hub@ == "https://pubsubhubbub.appspot.com".spec_bytes(),
            r.youtube.topic@ == "https://www.youtube.com/xml/feeds/videos.xml?channel_id=".spec_bytes(),
    {
        Config { server: CfgServer::default(), youtube: CfgSubs::default() }
    }
}

impl Config {
    /// `host:port`, the address the listener binds.
    pub fn server_address(&self) -> (r: Vec<u8>)
        ensures
            r@ == self.server.host@ + ":".spec_bytes() + dec_digits(self.server.port as int),
    {
        let mut r = vstd::slice::slice_to_vec(self.server.host.as_slice());
        append_bytes(&mut r, ":".as_bytes());
        let digits = to_decimal(self.server.port as u64);
        append_bytes(&mut r, digits.as_slice());
        r
    }

    /// `callback:port`, the address handed to the hub.
    pub fn callback_address(&self) -> (r: Vec<u8>)
        ensures
            r@ == self.server.callback@ + ":".spec_bytes() + dec_digits(self.server.port as int),
    {
        let mut r = vstd::slice::slice_to_vec(self.server.callback.as_slice());
        append_bytes(&mut r, ":".as_bytes());
        let digits = to_decimal(self.server.port as u64);
        append_bytes(&mut r, digits.as_slice());
        r
    }
}

} // verus!
