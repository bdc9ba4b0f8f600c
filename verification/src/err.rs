//! The bridge's failure taxonomy. Every rejected input produces one of these;
//! nothing is silently swallowed or truncated.

use vstd::prelude::*;

verus! {

/// A fatal condition detected by the bridge core.
#[derive(Debug, Clone, Copy, PartialEq, Eq, Structural)]
pub enum BridgeError {
    /// A pkt-line payload longer than the frame format can carry.
    OversizedPayload,
    /// A CGI header line with no `:` delimiter.
    MalformedCgiHeader,
    /// A CGI header whose name or value cannot form a legal HTTP header.
    InvalidHeaderValue,
    /// A requested service name outside the supported set.
    UnknownService,
}

impl BridgeError {
    /// A short diagnostic label for the error.
    pub fn describe(&self) -> (r: &'static str)
        ensures
            r@ == match *self {
                BridgeError::OversizedPayload => "oversized pkt-line payload"@,
                BridgeError::MalformedCgiHeader => "malformed CGI header line"@,
                BridgeError::InvalidHeaderValue => "invalid HTTP header"@,
                BridgeError::UnknownService => "unknown service"@,
            },
    {
        match *self {
            BridgeError::OversizedPayload => "oversized pkt-line payload",
            BridgeError::MalformedCgiHeader => "malformed CGI header line",
            BridgeError::InvalidHeaderValue => "invalid HTTP header",
            BridgeError::UnknownService => "unknown service",
        }
    }
}

} // verus!
