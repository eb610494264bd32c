//! Verack message: sent in response to a version message. It consists of
//! only a message header with the command tag `verack`.
//!
//! Its payload is empty, so decoding succeeds on any input without consuming
//! anything: bytes that follow belong to the next frame, not to this message.
use vstd::prelude::*;

verus! {

use crate::messages::Codec;
use crate::messages::CodecError;

/// Acknowledgement with no payload. Its abstract value is the unit.
#[derive(Debug)]
pub struct VerackMessage {}

impl View for VerackMessage {
    type V = ();

    open spec fn view(&self) -> () {
        ()
    }
}

impl Codec for VerackMessage {
    open spec fn valid(&self) -> bool {
        true
    }

    open spec fn wire(v: ()) -> Seq<u8> {
        Seq::empty()
    }

    open spec fn spec_decode(data: Seq<u8>) -> Result<((), int), CodecError> {
        Ok(((), 0))
    }

    fn encode(&self) -> (r: Vec<u8>)
        ensures
            r@ == Self::wire(self@),
    {
        let data = Vec::<u8>::new();
        proof {
            assert(data@ =~= Self::wire(self@));
        }
        data
    }

    fn decode(data: &mut &[u8]) -> (r: Result<Self, CodecError>) {
        proof {
            assert(old(data)@.skip(0) =~= old(data)@);
        }
        Ok(Self {  })
    }
}

/// Decoding after an encoded verack leaves every following byte in place:
/// the empty payload consumes nothing on either side of the round trip.
pub proof fn lemma_verack_round_trip(rest: Seq<u8>)
    ensures
        VerackMessage::spec_decode(VerackMessage::wire(()) + rest) == Ok::<((), int), CodecError>(
            ((), 0),
        ),
{
}

} // verus!
