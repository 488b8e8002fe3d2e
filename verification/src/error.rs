//! The closed set of failure kinds the benchmark distinguishes.

use vstd::prelude::*;

verus! {

/// Why a run or an exchange failed.
///
/// Every failure is one of these three kinds, so a caller can branch on the
/// category: bad address (before any I/O), transport trouble, or a peer that
/// broke the protocol.
#[derive(Clone, Copy, PartialEq, Eq, Structural, Debug)]
pub enum ProbeError {
    /// A malformed address string; occurs before any network activity.
    AddressError,
    /// A bind, connect, accept, send, receive, read or write failure.
    TransportError,
    /// The received bytes do not equal the expected doubled frame.
    ProtocolViolation,
}

impl ProbeError {
    /// A short diagnostic name for the failure kind.
    pub fn describe(&self) -> (r: &'static str)
        ensures
            self is AddressError ==> r@ == "malformed address"@,
            self is TransportError ==> r@ == "transport failure"@,
            self is ProtocolViolation ==> r@ == "protocol violation"@,
    {
        match self {
            ProbeError::AddressError => "malformed address",
            ProbeError::TransportError => "transport failure",
            ProbeError::ProtocolViolation => "protocol violation",
        }
    }
}

} // verus!
