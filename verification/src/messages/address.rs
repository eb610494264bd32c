//! Network address: the services + IP + port triple used inside handshake
//! payloads.
//!
//! The encoded form is fixed at 26 bytes: services (8 bytes little-endian),
//! a 16-byte address (IPv4 addresses stored IPv4-mapped-in-IPv6) and a 2-byte
//! big-endian port. An all-zero instance stands for "unknown/self" and is
//! used as the placeholder sender address.
use vstd::prelude::*;

verus! {

use vstd::bytes::spec_u64_from_le_bytes;
use vstd::bytes::spec_u64_to_le_bytes;
use crate::cursor::read_slice;
use crate::cursor::read_u16_be;
use crate::cursor::read_u64_le;
use crate::cursor::spec_u16_from_be_bytes;
use crate::cursor::spec_u16_to_be_bytes;
use crate::cursor::write_u16_be;
use crate::cursor::write_u64_le;
use crate::cursor::lemma_u16_be_bytes_round_trip;
use crate::messages::bytes_eq;
use crate::messages::Codec;
use crate::messages::CodecError;
use crate::messages::Services;

/// The abstract value of a network address: the raw services mask, the
/// sixteen address bytes and the port.
#[verifier::ext_equal]
pub struct NetworkAddressView {
    pub services: u64,
    pub octets: Seq<u8>,
    pub port: u16,
}

/// The abstract value of the all-zero placeholder address.
pub open spec fn spec_empty_address() -> NetworkAddressView {
    NetworkAddressView { services: 0u64, octets: Seq::new(16, |i: int| 0u8), port: 0u16 }
}

/// Represents a socket address used while exchanging messages in the
/// peer-to-peer network.
#[derive(Clone, Copy, Debug)]
pub struct NetworkAddress {
    /// Features to be enabled for the current connection
    pub services: Services,
    /// IPv4/IPv6 address
    address: [u8; 16],
    /// Port number in network byte order
    port: u16,
}

impl View for NetworkAddress {
    type V = NetworkAddressView;

    closed spec fn view(&self) -> NetworkAddressView {
        NetworkAddressView { services: self.services@, octets: self.address@, port: self.port }
    }
}

/// The sixteen address bytes standing for an IPv4 address: ten zero bytes,
/// two `0xff` bytes, then the four IPv4 octets.
pub fn ipv4_mapped(octets: [u8; 4]) -> (r: [u8; 16])
    ensures
        r@ == seq![
            0u8,
            0u8,
            0u8,
            0u8,
            0u8,
            0u8,
            0u8,
            0u8,
            0u8,
            0u8,
            0xffu8,
            0xffu8,
        ] + octets@,
{
    let r: [u8; 16] = [
        0,
        0,
        0,
        0,
        0,
        0,
        0,
        0,
        0,
        0,
        0xff,
        0xff,
        octets[0],
        octets[1],
        octets[2],
        octets[3],
    ];
    proof {
        assert(r@ =~= seq![
            0u8,
            0u8,
            0u8,
            0u8,
            0u8,
            0u8,
            0u8,
            0u8,
            0u8,
            0u8,
            0xffu8,
            0xffu8,
        ] + octets@);
    }
    r
}

impl NetworkAddress {
    /// Builds an address from its parts: the services to announce, the
    /// sixteen address bytes and the port.
    pub fn new(services: Services, address: [u8; 16], port: u16) -> (r: Self)
        ensures
            r@ == (NetworkAddressView { services: services@, octets: address@, port }),
    {
        Self { services, address, port }
    }

    /// Creates a network address with all zero bytes, the placeholder for an
    /// unknown address or the sender itself.
    pub fn empty() -> (r: Self)
        ensures
            r@ == spec_empty_address(),
    {
        let r = Self { services: Services::empty(), address: [0; 16], port: 0 };
        proof {
            assert(r@.octets =~= Seq::new(16, |i: int| 0u8));
            assert(r@ =~= spec_empty_address());
        }
        r
    }

    /// Gets the sixteen address bytes and the port.
    pub fn address(&self) -> (r: ([u8; 16], u16))
        ensures
            r.0@ == self@.octets,
            r.1 == self@.port,
    {
        (self.address, self.port)
    }
}

impl PartialEq for NetworkAddress {
    /// Two addresses are equal when all three parts agree.
    fn eq(&self, other: &Self) -> (r: bool) {
        self.services.mask() == other.services.mask() && bytes_eq(
            self.address.as_slice(),
            other.address.as_slice(),
        ) && self.port == other.port
    }
}

impl vstd::std_specs::cmp::PartialEqSpecImpl for NetworkAddress {
    open spec fn obeys_eq_spec() -> bool {
        true
    }

    open spec fn eq_spec(&self, other: &Self) -> bool {
        self@ == other@
    }
}

impl Codec for NetworkAddress {
    open spec fn valid(&self) -> bool {
        true
    }

    open spec fn wire(v: NetworkAddressView) -> Seq<u8> {
        spec_u64_to_le_bytes(v.services) + v.octets + spec_u16_to_be_bytes(v.port)
    }

    open spec fn spec_decode(data: Seq<u8>) -> Result<(NetworkAddressView, int), CodecError> {
        if data.len() < 26 {
            Err(CodecError::InsufficientBytesError)
        } else {
            Ok(
                (
                    NetworkAddressView {
                        services: spec_u64_from_le_bytes(data.take(8)),
                        octets: data.subrange(8, 24),
                        port: spec_u16_from_be_bytes(data.subrange(24, 26)),
                    },
                    26,
                ),
            )
        }
    }

    fn encode(&self) -> (r: Vec<u8>)
        ensures
            r@ == Self::wire(self@),
    {
        let mut data = self.services.encode();
        data.extend_from_slice(self.address.as_slice());
        write_u16_be(&mut data, self.port);
        proof {
            assert(data@ =~= Self::wire(self@));
        }
        data
    }

    fn decode(data: &mut &[u8]) -> (r: Result<Self, CodecError>) {
        if data.len() < 26 {
            return Err(CodecError::InsufficientBytesError);
        }
        let mut d: &[u8] = *data;
        let services = match read_u64_le(&mut d) {
            Some(v) => v,
            None => {
                proof {
                    assert(false);
                }
                return Err(CodecError::InsufficientBytesError);
            },
        };
        let octets = match read_slice(&mut d, 16) {
            Some(v) => v,
            None => {
                proof {
                    assert(false);
                }
                return Err(CodecError::InsufficientBytesError);
            },
        };
        let address: [u8; 16] = [
            *vstd::slice::slice_index_get(octets, 0),
            *vstd::slice::slice_index_get(octets, 1),
            *vstd::slice::slice_index_get(octets, 2),
            *vstd::slice::slice_index_get(octets, 3),
            *vstd::slice::slice_index_get(octets, 4),
            *vstd::slice::slice_index_get(octets, 5),
            *vstd::slice::slice_index_get(octets, 6),
            *vstd::slice::slice_index_get(octets, 7),
            *vstd::slice::slice_index_get(octets, 8),
            *vstd::slice::slice_index_get(octets, 9),
            *vstd::slice::slice_index_get(octets, 10),
            *vstd::slice::slice_index_get(octets, 11),
            *vstd::slice::slice_index_get(octets, 12),
            *vstd::slice::slice_index_get(octets, 13),
            *vstd::slice::slice_index_get(octets, 14),
            *vstd::slice::slice_index_get(octets, 15),
        ];
        let port = match read_u16_be(&mut d) {
            Some(v) => v,
            None => {
                proof {
                    assert(false);
                }
                return Err(CodecError::InsufficientBytesError);
            },
        };
        let r = Self { services: Services::from_mask(services), address, port };
        proof {
            assert(address@ =~= old(data)@.subrange(8, 24));
            assert(old(data)@.skip(8).take(16) =~= old(data)@.subrange(8, 24));
            assert(old(data)@.skip(8).skip(16) =~= old(data)@.skip(24));
            assert(old(data)@.skip(24).take(2) =~= old(data)@.subrange(24, 26));
            assert(old(data)@.skip(8).skip(16).skip(2) =~= old(data)@.skip(26));
            assert(r@ =~= Self::spec_decode(old(data)@)->Ok_0.0);
        }
        *data = d;
        Ok(r)
    }
}

/// Decoding an encoded address yields the address back and consumes exactly
/// its 26 bytes, whatever trails it.
pub proof fn lemma_address_round_trip(v: NetworkAddressView, rest: Seq<u8>)
    requires
        v.octets.len() == 16,
    ensures
        NetworkAddress::spec_decode(NetworkAddress::wire(v) + rest) == Ok::<
            (NetworkAddressView, int),
            CodecError,
        >((v, 26)),
{
    vstd::bytes::lemma_auto_spec_u64_to_from_le_bytes();
    lemma_u16_be_bytes_round_trip();
    let data = NetworkAddress::wire(v) + rest;
    assert(spec_u64_to_le_bytes(v.services).len() == 8);
    assert(data.take(8) =~= spec_u64_to_le_bytes(v.services));
    assert(data.subrange(8, 24) =~= v.octets);
    assert(data.subrange(24, 26) =~= spec_u16_to_be_bytes(v.port));
    assert(NetworkAddress::spec_decode(data)->Ok_0.0 =~= v);
}

/// Decoding from fewer bytes than the fixed 26 an address needs reports
/// insufficient bytes.
pub proof fn lemma_address_truncation(data: Seq<u8>)
    requires
        data.len() < 26,
    ensures
        NetworkAddress::spec_decode(data) == Err::<(NetworkAddressView, int), CodecError>(
            CodecError::InsufficientBytesError,
        ),
{
}

} // verus!
