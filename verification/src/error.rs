//! Transport and session errors: what a handshake attempt reports to its
//! caller. Data-shape problems found while decoding are `CodecError`s and are
//! translated into `InvalidDataError` at the handshake boundary.
use vstd::prelude::*;

verus! {

/// A transport or session problem that terminates one handshake attempt. It
/// never aborts attempts against other peers.
#[derive(Clone, Copy, Debug, PartialEq, Eq, Structural)]
pub enum ConnectionError {
    /// The peer closed the connection (a zero-length read).
    ConnectionHangUp,
    /// Establishing the connection failed.
    ConnectionRefusedError,
    /// A decoding error or a checksum mismatch in what the peer sent.
    InvalidDataError,
    /// A read or write on the socket failed.
    IOError,
}

impl ConnectionError {
    /// A human-readable description of the error.
    pub fn message(&self) -> (r: &'static str)
        ensures
            *self is ConnectionHangUp ==> r@ == "Connection hang up"@,
            *self is ConnectionRefusedError ==> r@ == "Connection to provided address refused"@,
            *self is InvalidDataError ==> r@ == "Invalid data received"@,
            *self is IOError ==> r@ == "IO error occurred during connection"@,
    {
        match self {
            ConnectionError::ConnectionHangUp => "Connection hang up",
            ConnectionError::ConnectionRefusedError => "Connection to provided address refused",
            ConnectionError::InvalidDataError => "Invalid data received",
            ConnectionError::IOError => "IO error occurred during connection",
        }
    }
}

} // verus!
