//! What the proxy does with an incoming request, decided from its method
//! and the authority (`host:port`) of its target.

use vstd::prelude::*;

verus! {

/// The status of the answer to a CONNECT that names no `host:port`.
pub const BAD_REQUEST: u16 = 400;

/// The body of the answer to a CONNECT that names no `host:port`.
pub open spec fn connect_refusal_text() -> Seq<char> {
    "CONNECT must be to a socket address"@
}

/// The proxy's answer to a request.
#[derive(Debug, PartialEq, Eq)]
pub enum ProxyAction {
    /// Send the request on to the target and relay its response.
    Forward,
    /// Answer with an empty response, then tunnel the upgraded connection
    /// to `authority`.
    Tunnel { authority: String },
    /// Answer at once with `status` and the text `body`.
    Reject { status: u16, body: String },
}

/// Decides what to do with a request whose method is `method` and whose
/// target names `authority`, if it names one: CONNECT requests are
/// tunnelled to their authority, or refused where they name none; every
/// other request is forwarded.
pub fn route_request(method: &str, authority: Option<String>) -> (res: ProxyAction)
    ensures
        method@ != "CONNECT"@ ==> res == ProxyAction::Forward,
        method@ == "CONNECT"@ ==> match authority {
            Some(a) => res == (ProxyAction::Tunnel { authority: a }),
            None => res matches ProxyAction::Reject { status, body } && status == BAD_REQUEST
                && body@ == connect_refusal_text(),
        },
{
    let connect = String::from_str("CONNECT");
    if method.to_owned() != connect {
        return ProxyAction::Forward;
    }
    match authority {
        Some(a) => ProxyAction::Tunnel { authority: a },
        None => ProxyAction::Reject {
            status: BAD_REQUEST,
            body: String::from_str("CONNECT must be to a socket address"),
        },
    }
}

} // verus!
