//! What can go wrong during the handshake.

use vstd::prelude::*;

verus! {

/// A failed handshake.
#[derive(Debug, Clone, PartialEq, Eq)]
pub enum HandshakeError {
    /// The server's answer was empty.
    NoData,
    /// The server chose a protocol version other than 3.
    VersionError(u8),
    /// The server did not echo the random bytes it was sent.
    EchoMismatch { expected: [u8; 1528], got: [u8; 1528] },
    /// This handshake has already been run.
    HandshakeAlreadyDone,
}

impl HandshakeError {
    /// A one-line description of the failure.
    pub fn message(&self) -> (r: &'static str)
        ensures
            r@ == (match self {
                HandshakeError::NoData => "No data provided"@,
                HandshakeError::VersionError(_) => "Version mismatch"@,
                HandshakeError::EchoMismatch { .. } => "Random Echo mismatch"@,
                HandshakeError::HandshakeAlreadyDone => "Handshake has already been done"@,
            }),
    {
        match self {
            HandshakeError::NoData => "No data provided",
            HandshakeError::VersionError(_) => "Version mismatch",
            HandshakeError::EchoMismatch { .. } => "Random Echo mismatch",
            HandshakeError::HandshakeAlreadyDone => "Handshake has already been done",
        }
    }
}

} // verus!
