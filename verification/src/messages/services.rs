//! The 64-bit capability bitmask a peer advertises, and the named
//! capabilities behind its recognized bit positions.
//!
//! Unknown bits are preserved opaquely on a round trip but are never exposed
//! as named capabilities.
use vstd::prelude::*;

verus! {

use vstd::bytes::spec_u64_from_le_bytes;
use vstd::bytes::spec_u64_to_le_bytes;
use crate::cursor::read_u64_le;
use crate::cursor::write_u64_le;
use crate::messages::Codec;
use crate::messages::CodecError;

/// A service a node can provide to the network. Each variant stands for one
/// bit position of the services bitmask.
#[derive(Clone, Copy, Debug, PartialEq, Eq, Structural)]
pub enum Service {
    Network,
    Getutx,
    Bloom,
    Witness,
    Xthin,
    CompactFilters,
    NetworkLimited,
}

impl Service {
    /// The bit this service occupies in the bitmask.
    pub open spec fn spec_mask(self) -> u64 {
        match self {
            Service::Network => 0x01u64,
            Service::Getutx => 0x02u64,
            Service::Bloom => 0x04u64,
            Service::Witness => 0x08u64,
            Service::Xthin => 0x10u64,
            Service::CompactFilters => 0x40u64,
            Service::NetworkLimited => 0x400u64,
        }
    }

    /// Returns the bit this service occupies in the bitmask.
    pub fn as_u64(self) -> (r: u64)
        ensures
            r == self.spec_mask(),
    {
        match self {
            Service::Network => 0x01,
            Service::Getutx => 0x02,
            Service::Bloom => 0x04,
            Service::Witness => 0x08,
            Service::Xthin => 0x10,
            Service::CompactFilters => 0x40,
            Service::NetworkLimited => 0x400,
        }
    }
}

/// The bitmask obtained by enabling every service in the list.
pub open spec fn spec_mask_of(list: Seq<Service>) -> u64
    decreases list.len(),
{
    if list.len() == 0 {
        0u64
    } else {
        spec_mask_of(list.drop_last()) | list.last().spec_mask()
    }
}

/// The recognized services enabled in a bitmask, in declaration order.
pub open spec fn spec_enabled(mask: u64) -> Seq<Service> {
    (if mask & 0x01 != 0 {
        seq![Service::Network]
    } else {
        Seq::empty()
    }) + (if mask & 0x02 != 0 {
        seq![Service::Getutx]
    } else {
        Seq::empty()
    }) + (if mask & 0x04 != 0 {
        seq![Service::Bloom]
    } else {
        Seq::empty()
    }) + (if mask & 0x08 != 0 {
        seq![Service::Witness]
    } else {
        Seq::empty()
    }) + (if mask & 0x10 != 0 {
        seq![Service::Xthin]
    } else {
        Seq::empty()
    }) + (if mask & 0x40 != 0 {
        seq![Service::CompactFilters]
    } else {
        Seq::empty()
    }) + (if mask & 0x400 != 0 {
        seq![Service::NetworkLimited]
    } else {
        Seq::empty()
    })
}

/// The services bitmask exchanged in handshake payloads. Its abstract value
/// is the raw 64-bit mask.
#[derive(Clone, Copy, Debug, PartialEq, Eq, Structural)]
pub struct Services {
    services: u64,
}

impl View for Services {
    type V = u64;

    closed spec fn view(&self) -> u64 {
        self.services
    }
}

impl Services {
    /// Builds a bitmask with exactly the listed services enabled.
    pub fn new(services: &[Service]) -> (r: Self)
        ensures
            r@ == spec_mask_of(services@),
    {
        let mut data: u64 = 0;
        let n = services.len();
        let mut i: usize = 0;
        while i < n
            invariant
                n == services@.len(),
                0 <= i <= n,
                data == spec_mask_of(services@.take(i as int)),
            decreases n - i,
        {
            let s = *vstd::slice::slice_index_get(services, i);
            data = data | s.as_u64();
            proof {
                assert(services@.take(i + 1).drop_last() =~= services@.take(i as int));
                assert(services@.take(i + 1).last() == services@[i as int]);
            }
            i += 1;
        }
        proof {
            assert(services@.take(n as int) =~= services@);
        }
        Self { services: data }
    }

    /// The raw 64-bit mask.
    pub fn mask(&self) -> (r: u64)
        ensures
            r == self@,
    {
        self.services
    }

    /// Wraps a raw 64-bit mask, keeping unknown bits as they are.
    pub fn from_mask(mask: u64) -> (r: Self)
        ensures
            r@ == mask,
    {
        Self { services: mask }
    }

    /// Creates an empty bitmask: no service enabled.
    pub fn empty() -> (r: Self)
        ensures
            r@ == 0u64,
    {
        Self { services: 0 }
    }

    /// Lists the recognized services enabled in this bitmask, in declaration
    /// order. Unrecognized bits are not reported.
    #[verifier::rlimit(50)]
    pub fn enabled(&self) -> (r: Vec<Service>)
        ensures
            r@ == spec_enabled(self@),
    {
        let mut services = Vec::<Service>::new();
        if self.services & 0x01 != 0 {
            services.push(Service::Network);
        }
        if self.services & 0x02 != 0 {
            services.push(Service::Getutx);
        }
        if self.services & 0x04 != 0 {
            services.push(Service::Bloom);
        }
        if self.services & 0x08 != 0 {
            services.push(Service::Witness);
        }
        if self.services & 0x10 != 0 {
            services.push(Service::Xthin);
        }
        if self.services & 0x40 != 0 {
            services.push(Service::CompactFilters);
        }
        if self.services & 0x400 != 0 {
            services.push(Service::NetworkLimited);
        }
        proof {
            assert(services@ =~= spec_enabled(self@));
        }
        services
    }
}

impl From<u64> for Services {
    /// Wraps a raw bitmask, keeping unknown bits as they are.
    fn from(services: u64) -> (r: Self) {
        Self { services }
    }
}

impl vstd::std_specs::convert::FromSpecImpl<u64> for Services {
    open spec fn obeys_from_spec() -> bool {
        true
    }

    closed spec fn from_spec(services: u64) -> Self {
        Services { services }
    }
}

impl Codec for Services {
    open spec fn valid(&self) -> bool {
        true
    }

    open spec fn wire(v: u64) -> Seq<u8> {
        spec_u64_to_le_bytes(v)
    }

    open spec fn spec_decode(data: Seq<u8>) -> Result<(u64, int), CodecError> {
        if data.len() < 8 {
            Err(CodecError::InsufficientBytesError)
        } else {
            Ok((spec_u64_from_le_bytes(data.take(8)), 8))
        }
    }

    fn encode(&self) -> (r: Vec<u8>)
        ensures
            r@ == Self::wire(self@),
    {
        let mut data = Vec::<u8>::new();
        write_u64_le(&mut data, self.services);
        proof {
            assert(data@ =~= Self::wire(self@));
        }
        data
    }

    fn decode(data: &mut &[u8]) -> (r: Result<Self, CodecError>) {
        let mut d: &[u8] = *data;
        let services = match read_u64_le(&mut d) {
            Some(v) => v,
            None => {
                return Err(CodecError::InsufficientBytesError);
            },
        };
        *data = d;
        Ok(Self { services })
    }
}

/// Decoding an encoded bitmask yields the bitmask back and consumes exactly
/// its eight bytes, whatever trails it.
pub proof fn lemma_services_round_trip(m: u64, rest: Seq<u8>)
    ensures
        Services::spec_decode(Services::wire(m) + rest) == Ok::<(u64, int), CodecError>((m, 8)),
{
    vstd::bytes::lemma_auto_spec_u64_to_from_le_bytes();
    assert((Services::wire(m) + rest).take(8) =~= Services::wire(m));
}

/// Decoding from fewer bytes than the bitmask needs reports insufficient
/// bytes.
pub proof fn lemma_services_truncation(data: Seq<u8>)
    requires
        data.len() < 8,
    ensures
        Services::spec_decode(data) == Err::<(u64, int), CodecError>(
            CodecError::InsufficientBytesError,
        ),
{
}

} // verus!
