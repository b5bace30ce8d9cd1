//! The two endpoints the proxy works with, resolved once at start from the
//! values the process was given and read-only afterwards.
use crate::error::Fatal;
use vstd::prelude::*;
use vstd::string::StringExecFns;

verus! {

/// Port the proxy listens on when none, or no valid one, is given.
pub const DEFAULT_PROXY_PORT: u16 = 9009;

/// Decimal digits of `n`, without sign or leading zeros.
pub open spec fn decimal(n: nat) -> Seq<char>
    decreases n,
{
    if n < 10 {
        seq![digit_char(n)]
    } else {
        decimal(n / 10).push(digit_char(n % 10))
    }
}

pub open spec fn digit_char(d: nat) -> char {
    if d == 0 { '0' } else if d == 1 { '1' } else if d == 2 { '2' } else if d == 3 { '3' }
    else if d == 4 { '4' } else if d == 5 { '5' } else if d == 6 { '6' } else if d == 7 { '7' }
    else if d == 8 { '8' } else { '9' }
}

pub open spec fn is_digit(c: char) -> bool {
    '0' <= c && c <= '9'
}

/// Value of a string of decimal digits.
pub open spec fn digits_value(s: Seq<char>) -> nat
    decreases s.len(),
{
    if s.len() == 0 {
        0
    } else {
        digits_value(s.drop_last()) * 10 + ((s.last() as u32) - ('0' as u32)) as nat
    }
}

/// A port number written in decimal: an optional '+', then at least one
/// digit, of a value that fits in 16 bits.
pub open spec fn parsed_port(s: Seq<char>) -> Option<u16> {
    let d = if s.len() > 0 && s[0] == '+' {
        s.drop_first()
    } else {
        s
    };
    if d.len() > 0 && (forall|i: int| 0 <= i < d.len() ==> is_digit(#[trigger] d[i]))
        && digits_value(d) <= u16::MAX {
        Some(digits_value(d) as u16)
    } else {
        None
    }
}

/// The port the proxy listens on, given the configured text if any.
pub open spec fn listen_port(port: Option<Seq<char>>) -> u16 {
    match port {
        Some(s) => match parsed_port(s) {
            Some(p) => p,
            None => DEFAULT_PROXY_PORT,
        },
        None => DEFAULT_PROXY_PORT,
    }
}

/// Relies on `str::parse::<u16>`: it accepts an optional '+' followed by one
/// or more decimal digits whose value fits in a `u16`, and nothing else.
#[verifier::external_body]
fn parse_port(s: &str) -> (r: Option<u16>)
    ensures
        r == parsed_port(s@),
{
    s.parse::<u16>().ok()
}

/// Relies on `u16::to_string`: the value's decimal digits.
#[verifier::external_body]
fn port_text(port: u16) -> (r: String)
    ensures
        r@ == decimal(port as nat),
{
    port.to_string()
}

/// The sandbox's control endpoint and the proxy's own listen address, both
/// as `host:port`.
pub struct RuntimeEnv {
    runtime_api: String,
    lrap_api: String,
}

impl RuntimeEnv {
    pub closed spec fn control(&self) -> Seq<char> {
        self.runtime_api@
    }

    pub closed spec fn listen(&self) -> Seq<char> {
        self.lrap_api@
    }
}

/// Resolves both endpoints. The control endpoint is the first of the two
/// names that is given; without either the proxy cannot run. The listen
/// address is on the loopback interface, at the configured port or the
/// default one.
pub fn latch_runtime_env(
    proxy_endpoint: Option<String>,
    runtime_api: Option<String>,
    listener_port: Option<String>,
) -> (r: Result<RuntimeEnv, Fatal>)
    ensures
        (proxy_endpoint is None && runtime_api is None) <==> r == Err::<RuntimeEnv, Fatal>(
            Fatal::MissingControlEndpoint,
        ),
        (proxy_endpoint is Some || runtime_api is Some) <==> r is Ok,
        r matches Ok(env) ==> {
            &&& env.control() == (match proxy_endpoint {
                Some(s) => s@,
                None => runtime_api->Some_0@,
            })
            &&& env.listen() == "127.0.0.1:"@ + decimal(
                listen_port(
                    match listener_port {
                        Some(s) => Some(s@),
                        None => None,
                    },
                ) as nat,
            )
        },
{
    let control = match proxy_endpoint {
        Some(s) => s,
        None => match runtime_api {
            Some(s) => s,
            None => {
                return Err(Fatal::MissingControlEndpoint);
            },
        },
    };
    let port = match listener_port {
        Some(s) => match parse_port(s.as_str()) {
            Some(p) => p,
            None => DEFAULT_PROXY_PORT,
        },
        None => DEFAULT_PROXY_PORT,
    };
    let listen = String::from_str("127.0.0.1:").concat(port_text(port).as_str());
    Ok(RuntimeEnv { runtime_api: control, lrap_api: listen })
}

/// The sandbox's control endpoint, `host:port`.
pub fn sandbox_runtime_api(env: &RuntimeEnv) -> (r: &str)
    ensures
        r@ == env.control(),
{
    env.runtime_api.as_str()
}

/// The address the proxy listens on, `host:port`.
pub fn lrap_api(env: &RuntimeEnv) -> (r: &str)
    ensures
        r@ == env.listen(),
{
    env.lrap_api.as_str()
}

} // verus!
