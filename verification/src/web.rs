//! The web interface's proxy: every `/api/…` request is forwarded to the
//! daemon.
use vstd::prelude::*;
use crate::text::{chars_of, decimal, decimal_chars, extend_chars, extend_str, string_of};

verus! {

/// The body answered when the daemon cannot be reached (with status 502).
pub const UNREACHABLE_BODY: &'static str = "{\"error\":\"unreachable\"}";

/// The daemon's API root for a daemon on `port`.
pub open spec fn api_prefix_of(port: u16) -> Seq<char> {
    "http://127.0.0.1:"@ + decimal(port as nat) + "/api"@
}

/// Builds the daemon's API root.
pub fn api_prefix(port: u16) -> (r: String)
    ensures
        r@ == api_prefix_of(port),
{
    let mut v = chars_of("http://127.0.0.1:");
    let d = decimal_chars(port as u64);
    extend_chars(&mut v, &d);
    extend_str(&mut v, "/api");
    string_of(&v)
}

/// The daemon URL a proxied request goes to.
pub fn proxy_url(prefix: &str, path: &str) -> (r: String)
    ensures
        r@ == prefix@ + "/"@ + path@,
{
    let mut v = chars_of(prefix);
    extend_str(&mut v, "/");
    extend_str(&mut v, path);
    string_of(&v)
}

/// The address the web interface listens on.
pub fn listen_addr(port: u16) -> (r: String)
    ensures
        r@ == "127.0.0.1:"@ + decimal(port as nat),
{
    let mut v = chars_of("127.0.0.1:");
    let d = decimal_chars(port as u64);
    extend_chars(&mut v, &d);
    string_of(&v)
}

} // verus!
