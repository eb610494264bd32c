//! Pong message: sent in response to a ping.
//!
//! A pong never draws a nonce of its own; it echoes the nonce of the ping it
//! answers, encoded little-endian.
use vstd::prelude::*;

verus! {

use vstd::bytes::spec_u64_from_le_bytes;
use vstd::bytes::spec_u64_to_le_bytes;
use crate::cursor::read_u64_le;
use crate::cursor::write_u64_le;
use crate::messages::Codec;
use crate::messages::CodecError;

/// Liveness answer echoing the nonce of a ping. Its abstract value is the
/// nonce.
#[derive(Debug, PartialEq, Eq, Structural)]
pub struct PongMessage {
    // Nonce from the ping message being answered
    nonce: u64,
}

impl View for PongMessage {
    type V = u64;

    closed spec fn view(&self) -> u64 {
        self.nonce
    }
}

impl PongMessage {
    /// Creates a pong echoing the given nonce.
    pub fn new(nonce: u64) -> (r: Self)
        ensures
            r@ == nonce,
    {
        Self { nonce }
    }

    /// Gets the echoed nonce.
    pub fn nonce(&self) -> (r: u64)
        ensures
            r == self@,
    {
        self.nonce
    }
}

impl Codec for PongMessage {
    open spec fn valid(&self) -> bool {
        true
    }

    open spec fn wire(v: u64) -> Seq<u8> {
        spec_u64_to_le_bytes(v)
    }

    open spec fn spec_decode(data: Seq<u8>) -> Result<(u64, int), CodecError> {
        if data.len() < 8 {
            Err(CodecError::InsufficientBytesError)
        } else {
            Ok((spec_u64_from_le_bytes(data.take(8)), 8))
        }
    }

    fn encode(&self) -> (r: Vec<u8>)
        ensures
            r@ == Self::wire(self@),
    {
        let mut data = Vec::<u8>::new();
        write_u64_le(&mut data, self.nonce);
        proof {
            assert(data@ =~= Self::wire(self@));
        }
        data
    }

    fn decode(data: &mut &[u8]) -> (r: Result<Self, CodecError>) {
        let mut d: &[u8] = *data;
        let nonce = match read_u64_le(&mut d) {
            Some(v) => v,
            None => {
                return Err(CodecError::InsufficientBytesError);
            },
        };
        *data = d;
        Ok(Self { nonce })
    }
}

/// Decoding an encoded pong yields the nonce back and consumes exactly its
/// eight bytes, whatever trails it.
pub proof fn lemma_pong_round_trip(nonce: u64, rest: Seq<u8>)
    ensures
        PongMessage::spec_decode(PongMessage::wire(nonce) + rest) == Ok::<(u64, int), CodecError>(
            (nonce, 8),
        ),
{
    vstd::bytes::lemma_auto_spec_u64_to_from_le_bytes();
    assert((PongMessage::wire(nonce) + rest).take(8) =~= PongMessage::wire(nonce));
}

/// Decoding from fewer bytes than the nonce needs reports insufficient bytes.
pub proof fn lemma_pong_truncation(data: Seq<u8>)
    requires
        data.len() < 8,
    ensures
        PongMessage::spec_decode(data) == Err::<(u64, int), CodecError>(
            CodecError::InsufficientBytesError,
        ),
{
}

} // verus!
