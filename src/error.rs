//! Violations of a contract that the rest of the proxy relies on. Each one
//! ends the process at its top level; no layer below treats one as recoverable.
use vstd::prelude::*;

verus! {

#[derive(PartialEq, Eq, Structural, Clone, Copy, Debug)]
pub enum Fatal {
    /// Neither name of the control endpoint's address was given.
    MissingControlEndpoint,
    /// A next-work response came without the invocation's request id.
    MissingRequestId,
    /// A next-work response carried a request id that is not visible ASCII.
    InvalidRequestId,
    /// A registration response came without the extension identifier.
    MissingExtensionId,
    /// A registration response carried an identifier that is not visible ASCII.
    InvalidExtensionId,
    /// Registration was attempted a second time.
    AlreadyRegistered,
    /// A lifecycle call was made before registration.
    NotRegistered,
}

/// The line that reports each fatal error.
pub open spec fn fatal_text(f: Fatal) -> Seq<char> {
    match f {
        Fatal::MissingControlEndpoint => "LRAP_RUNTIME_API_ENDPOINT or AWS_LAMBDA_RUNTIME_API not found"@,
        Fatal::MissingRequestId => "Sandbox Lambda Runtime API response missing 'lambda-runtime-aws-request-id' header in Lambda Runtime API GET:next response"@,
        Fatal::InvalidRequestId => "Error parsing Lambda Runtime API request ID"@,
        Fatal::MissingExtensionId => "Lambda Extensions API response missing 'lambda-extension-identifier' header in Lambda Extensions API POST:register response"@,
        Fatal::InvalidExtensionId => "Lambda Extensions API response carries an unreadable 'lambda-extension-identifier' header"@,
        Fatal::AlreadyRegistered => "Lambda Extension was already registered"@,
        Fatal::NotRegistered => "Lambda Extension Identifier not set!"@,
    }
}

impl Fatal {
    /// A line that says what went wrong.
    pub fn message(&self) -> (r: &'static str)
        ensures
            r@ == fatal_text(*self),
    {
        match self {
            Fatal::MissingControlEndpoint => "LRAP_RUNTIME_API_ENDPOINT or AWS_LAMBDA_RUNTIME_API not found",
            Fatal::MissingRequestId => "Sandbox Lambda Runtime API response missing 'lambda-runtime-aws-request-id' header in Lambda Runtime API GET:next response",
            Fatal::InvalidRequestId => "Error parsing Lambda Runtime API request ID",
            Fatal::MissingExtensionId => "Lambda Extensions API response missing 'lambda-extension-identifier' header in Lambda Extensions API POST:register response",
            Fatal::InvalidExtensionId => "Lambda Extensions API response carries an unreadable 'lambda-extension-identifier' header",
            Fatal::AlreadyRegistered => "Lambda Extension was already registered",
            Fatal::NotRegistered => "Lambda Extension Identifier not set!",
        }
    }
}

/// A response header as the proxy found it.
#[derive(PartialEq, Eq, Clone, Debug)]
pub enum HeaderField {
    /// The response had no such header.
    Missing,
    /// The header was there but its value is not visible ASCII.
    Invalid,
    /// The header's value.
    Present(String),
}

} // verus!
