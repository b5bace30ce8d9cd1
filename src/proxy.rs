//! Passthrough: what goes to the control endpoint and what comes back to the
//! caller.
use crate::env::RuntimeEnv;
use vstd::prelude::*;
use vstd::string::StringExecFns;

verus! {

/// Status of the response made up when the control endpoint cannot be reached.
pub const BAD_GATEWAY_STATUS: u16 = 502;

/// Body of the response made up when the control endpoint cannot be reached.
pub open spec fn bad_gateway_text() -> Seq<char> {
    "502 - Bad Gateway: Lambda Runtime API did not process request"@
}

/// `http://{authority}{path_and_query}`
pub open spec fn http_uri(authority: Seq<char>, path_and_query: Seq<char>) -> Seq<char> {
    "http://"@ + authority + path_and_query
}

/// The target of a forwarded request: the control endpoint, with the path
/// and query of the request as received.
pub fn endpoint_uri(env: &RuntimeEnv, path_and_query: &str) -> (r: String)
    ensures
        r@ == http_uri(env.control(), path_and_query@),
{
    let s = String::from_str("http://").concat(crate::env::sandbox_runtime_api(env));
    s.concat(path_and_query)
}

/// What the caller of a forwarded request receives.
#[derive(Debug)]
pub enum Forwarded<R> {
    /// The control endpoint's response, as it came.
    Upstream(R),
    /// The control endpoint could not be reached: a bad-gateway response.
    BadGateway { status: u16, body: String },
}

/// Turns the outcome of forwarding into the reply: the control endpoint's
/// response unchanged, or on a transport failure a bad-gateway response that
/// says the control endpoint did not process the request. Nothing is retried
/// and no failure is passed on.
pub fn passthru_reply<R, E>(outcome: Result<R, E>) -> (r: Forwarded<R>)
    ensures
        outcome matches Ok(resp) ==> r == Forwarded::<R>::Upstream(resp),
        outcome is Err ==> (r matches Forwarded::BadGateway { status, body } && status
            == BAD_GATEWAY_STATUS && body@ == bad_gateway_text()),
{
    match outcome {
        Ok(resp) => Forwarded::Upstream(resp),
        Err(_) => Forwarded::BadGateway {
            status: BAD_GATEWAY_STATUS,
            body: String::from_str("502 - Bad Gateway: Lambda Runtime API did not process request"),
        },
    }
}

} // verus!
