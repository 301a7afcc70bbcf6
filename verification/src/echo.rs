//! The echo feature's pure logic: the server-side reply and the client's
//! endpoint URL.
//!
//! The server function around `echo_reply` extracts the request context
//! and ships the reply; the page around `websocket_url` reads the
//! window's location. Both hand plain strings in and take plain strings
//! back.

use vstd::prelude::*;
use vstd::string::StringExecFns;

use crate::relay::{to_upper, upper_of};

verus! {

/// The request context the server shares with its handlers.
#[derive(Clone, Debug)]
pub struct MyContext {
    /// The title the echo reply is prefixed with.
    pub title: String,
}

/// The echo server's reply: the context's title, a colon and a space,
/// then the uppercase transform of the caller's input.
pub fn echo_reply(context: &MyContext, input: &str) -> (r: String)
    ensures
        r@ == context.title@ + ": "@ + upper_of(input@),
{
    let upper = to_upper(input);
    let mut r = context.title.clone();
    r.append(": ");
    r.append(upper.as_str());
    proof {
        assert(r@ =~= context.title@ + ": "@ + upper_of(input@));
    }
    r
}

/// Relies on str's `PartialEq`: two string slices are equal exactly when
/// their characters are.
#[verifier::external_body]
fn str_eq(a: &str, b: &str) -> (r: bool)
    ensures
        r == (a@ == b@),
{
    a == b
}

/// The relay endpoint URL for a page served from `host` over the given
/// protocol: a page delivered over `https:` upgrades to `wss`, any other
/// to `ws`.
pub fn websocket_url(protocol: &str, host: &str) -> (r: String)
    ensures
        r@ == (if protocol@ == "https:"@ {
            "wss"@
        } else {
            "ws"@
        }) + "://"@ + host@ + "/echo"@,
{
    let scheme: &str = if str_eq(protocol, "https:") {
        "wss"
    } else {
        "ws"
    };
    let mut r = String::from_str(scheme);
    r.append("://");
    r.append(host);
    r.append("/echo");
    proof {
        assert(r@ =~= (if protocol@ == "https:"@ {
            "wss"@
        } else {
            "ws"@
        }) + "://"@ + host@ + "/echo"@);
    }
    r
}

} // verus!
