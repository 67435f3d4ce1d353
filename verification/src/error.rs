//! Error taxonomy of a peer session.  Every variant is fatal to its own
//! session except `PeerRefused`, which only skips the peer.

use vstd::prelude::*;

verus! {

/// Why a peer session (or its setup) failed.
#[derive(Clone, Copy, Debug, PartialEq, Eq, Structural)]
pub enum SlurpError {
    /// The bearer failed while reading or writing.
    TransportError,
    /// The remote refused the proposed protocol versions.
    HandshakeRejected,
    /// An unexpected or undecodable message, including header or block
    /// bytes that no known era can decode.
    ProtocolViolation,
    /// A directory or file could not be created or written.
    IoError,
    /// A persisted cursor failed to decode; the operator must decide.
    CursorCorrupt,
    /// The initial TCP connect failed; other peers continue.
    PeerRefused,
}

impl SlurpError {
    /// Short human-readable description.
    pub fn describe(&self) -> (r: &'static str)
        ensures
            *self is TransportError ==> r@ == "bearer read or write failed"@,
            *self is HandshakeRejected ==> r@ == "handshake rejected by peer"@,
            *self is ProtocolViolation ==> r@ == "protocol violation"@,
            *self is IoError ==> r@ == "input/output error"@,
            *self is CursorCorrupt ==> r@ == "stored cursor is corrupt"@,
            *self is PeerRefused ==> r@ == "peer refused the connection"@,
    {
        match self {
            SlurpError::TransportError => "bearer read or write failed",
            SlurpError::HandshakeRejected => "handshake rejected by peer",
            SlurpError::ProtocolViolation => "protocol violation",
            SlurpError::IoError => "input/output error",
            SlurpError::CursorCorrupt => "stored cursor is corrupt",
            SlurpError::PeerRefused => "peer refused the connection",
        }
    }
}

} // verus!
