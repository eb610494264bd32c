//! Ping message: sent to confirm that the connection is still valid. An
//! error in transmission is presumed to be a closed connection.
//!
//! The payload is one 64-bit nonce, encoded little-endian. The nonce is drawn
//! at random when the message is constructed, never at decode time.
use vstd::prelude::*;

verus! {

use vstd::bytes::spec_u64_from_le_bytes;
use vstd::bytes::spec_u64_to_le_bytes;
use crate::cursor::read_u64_le;
use crate::cursor::write_u64_le;
use crate::messages::Codec;
use crate::messages::CodecError;
use crate::messages::random_u64;

/// Liveness probe carrying a random 64-bit nonce. Its abstract value is the
/// nonce.
#[derive(Debug, PartialEq, Eq, Structural)]
pub struct PingMessage {
    /// Random nonce
    nonce: u64,
}

impl View for PingMessage {
    type V = u64;

    closed spec fn view(&self) -> u64 {
        self.nonce
    }
}

impl PingMessage {
    /// Creates a ping with a freshly drawn random nonce.
    pub fn new() -> Self {
        Self { nonce: random_u64() }
    }

    /// Creates a ping with the given nonce.
    pub fn with_nonce(nonce: u64) -> (r: Self)
        ensures
            r@ == nonce,
    {
        Self { nonce }
    }

    /// Gets the random nonce.
    pub fn nonce(&self) -> (r: u64)
        ensures
            r == self@,
    {
        self.nonce
    }
}

impl Codec for PingMessage {
    open spec fn valid(&self) -> bool {
        true
    }

    open spec fn wire(v: u64) -> Seq<u8> {
        spec_u64_to_le_bytes(v)
    }

    open spec fn spec_decode(data: Seq<u8>) -> Result<(u64, int), CodecError> {
        if data.len() < 8 {
            Err(CodecError::InsufficientBytesError)
        } else {
            Ok((spec_u64_from_le_bytes(data.take(8)), 8))
        }
    }

    fn encode(&self) -> (r: Vec<u8>)
        ensures
            r@ == Self::wire(self@),
    {
        let mut data = Vec::<u8>::new();
        write_u64_le(&mut data, self.nonce);
        proof {
            assert(data@ =~= Self::wire(self@));
        }
        data
    }

    fn decode(data: &mut &[u8]) -> (r: Result<Self, CodecError>) {
        let mut d: &[u8] = *data;
        let nonce = match read_u64_le(&mut d) {
            Some(v) => v,
            None => {
                return Err(CodecError::InsufficientBytesError);
            },
        };
        *data = d;
        Ok(Self { nonce })
    }
}

/// Decoding an encoded ping yields the nonce back and consumes exactly its
/// eight bytes, whatever trails it.
pub proof fn lemma_ping_round_trip(nonce: u64, rest: Seq<u8>)
    ensures
        PingMessage::spec_decode(PingMessage::wire(nonce) + rest) == Ok::<(u64, int), CodecError>(
            (nonce, 8),
        ),
{
    vstd::bytes::lemma_auto_spec_u64_to_from_le_bytes();
    assert((PingMessage::wire(nonce) + rest).take(8) =~= PingMessage::wire(nonce));
}

/// Decoding from fewer bytes than the nonce needs reports insufficient bytes.
pub proof fn lemma_ping_truncation(data: Seq<u8>)
    requires
        data.len() < 8,
    ensures
        PingMessage::spec_decode(data) == Err::<(u64, int), CodecError>(
            CodecError::InsufficientBytesError,
        ),
{
}

} // verus!
