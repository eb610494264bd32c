//! Frame-level codec: the message header, the integrity checksum and the
//! frame composer, together with the `Codec` contract every message type
//! satisfies.
//!
//! A frame is `network:4 | command:12 | length:4 | checksum:4 | payload`.
//! All multi-byte header fields are little-endian; the command is a 12-byte
//! null-padded ASCII tag.
use vstd::prelude::*;

pub mod address;
pub mod ping;
pub mod pong;
pub mod services;
pub mod verack;
pub mod version;

pub use address::ipv4_mapped;
pub use address::NetworkAddress;
pub use address::NetworkAddressView;
pub use ping::PingMessage;
pub use pong::PongMessage;
pub use services::Service;
pub use services::Services;
pub use verack::VerackMessage;
pub use version::VersionMessage;
pub use version::VersionMessageView;

verus! {

use vstd::bytes::spec_u32_from_le_bytes;
use vstd::bytes::spec_u32_to_le_bytes;
use vstd::bytes::u32_from_le_bytes;
use vstd::slice::slice_subrange;
use crate::cursor::read_slice;
use crate::cursor::read_u32_le;
use crate::cursor::write_u32_le;

/// A data-shape problem found while decoding.
#[derive(Clone, Copy, Debug, PartialEq, Eq, Structural)]
pub enum CodecError {
    /// Bytes are present but do not form a valid value for the field.
    InvalidBytesError,
    /// Fewer bytes remain than the field or structure requires.
    InsufficientBytesError,
}

impl CodecError {
    /// A human-readable description of the error.
    pub fn message(&self) -> (r: &'static str)
        ensures
            *self is InvalidBytesError ==> r@ == "Invalid bytes provided during decoding"@,
            *self is InsufficientBytesError ==> r@
                == "Insufficient amount of bytes provided during decoding"@,
    {
        match self {
            CodecError::InvalidBytesError => "Invalid bytes provided during decoding",
            CodecError::InsufficientBytesError => {
                "Insufficient amount of bytes provided during decoding"
            },
        }
    }
}

/// The contract shared by every message type: a canonical byte image and a
/// total decoding function over abstract values.
///
/// `wire` gives the canonical encoding of an abstract value (the type's
/// view); `spec_decode` gives, for any byte sequence, either the value read
/// from its prefix together with the number of bytes consumed, or the error.
/// `encode` and `decode` are the executable sides, pinned exactly to those
/// two functions.
pub trait Codec: View + Sized {
    /// Values the wire format can carry.
    spec fn valid(&self) -> bool;

    /// The canonical byte image of an abstract value.
    spec fn wire(v: Self::V) -> Seq<u8>;

    /// The value read from a prefix of `data` and the bytes consumed, or the
    /// error the reading stops on.
    spec fn spec_decode(data: Seq<u8>) -> Result<(Self::V, int), CodecError>;

    /// Encodes the value into its canonical byte image.
    fn encode(&self) -> (r: Vec<u8>)
        requires
            self.valid(),
        ensures
            r@ == Self::wire(self@),
    ;

    /// Decodes one value from the front of the slice, advancing the slice
    /// past the consumed bytes on success and leaving it untouched on error.
    fn decode(data: &mut &[u8]) -> (r: Result<Self, CodecError>)
        ensures
            match Self::spec_decode(old(data)@) {
                Ok(p) => r is Ok && r->Ok_0@ == p.0 && r->Ok_0.valid() && 0 <= p.1
                    <= old(data)@.len() && final(data)@ == old(data)@.skip(p.1),
                Err(e) => r is Err && r->Err_0 == e && final(data)@ == old(data)@,
            },
    ;
}

/// Magic identifier of the gossip network a frame belongs to.
#[derive(Clone, Copy, Debug, PartialEq, Eq, Structural)]
pub enum Network {
    Main,
    Testnet,
    Testnet3,
    Signet,
    Namecoin,
}

impl Network {
    /// The canonical 32-bit magic value of this network.
    pub open spec fn spec_magic(self) -> u32 {
        match self {
            Network::Main => 0xd9b4bef9u32,
            Network::Testnet => 0xdab5bffau32,
            Network::Testnet3 => 0x0709110bu32,
            Network::Signet => 0x40cf030au32,
            Network::Namecoin => 0xfeb4bef9u32,
        }
    }

    /// The network a 32-bit magic value identifies, if any.
    pub open spec fn spec_from_magic(value: u32) -> Option<Network> {
        if value == 0xd9b4bef9u32 {
            Some(Network::Main)
        } else if value == 0xdab5bffau32 {
            Some(Network::Testnet)
        } else if value == 0x0709110bu32 {
            Some(Network::Testnet3)
        } else if value == 0x40cf030au32 {
            Some(Network::Signet)
        } else if value == 0xfeb4bef9u32 {
            Some(Network::Namecoin)
        } else {
            None
        }
    }

    /// Returns the canonical 32-bit magic value of this network.
    pub fn magic(self) -> (r: u32)
        ensures
            r == self.spec_magic(),
    {
        match self {
            Network::Main => 0xd9b4bef9,
            Network::Testnet => 0xdab5bffa,
            Network::Testnet3 => 0x0709110b,
            Network::Signet => 0x40cf030a,
            Network::Namecoin => 0xfeb4bef9,
        }
    }

    /// Looks a magic value up; an unrecognized value is rejected, never
    /// mapped to a default.
    pub fn from_magic(value: u32) -> (r: Option<Network>)
        ensures
            r == Self::spec_from_magic(value),
    {
        if value == 0xd9b4bef9 {
            Some(Network::Main)
        } else if value == 0xdab5bffa {
            Some(Network::Testnet)
        } else if value == 0x0709110b {
            Some(Network::Testnet3)
        } else if value == 0x40cf030a {
            Some(Network::Signet)
        } else if value == 0xfeb4bef9 {
            Some(Network::Namecoin)
        } else {
            None
        }
    }

    /// A recognized magic value always maps back to the network it came from.
    pub proof fn lemma_magic_round_trip(self)
        ensures
            Self::spec_from_magic(self.spec_magic()) == Some(self),
    {
    }
}

/// Identifier of the payload type carried by a frame.
#[derive(Clone, Copy, Debug, PartialEq, Eq, Structural)]
pub enum Command {
    Version,
    Verack,
    Ping,
    Pong,
}

impl Command {
    /// The 12-byte null-padded ASCII tag of this command.
    pub open spec fn spec_tag(self) -> Seq<u8> {
        match self {
            Command::Version => seq![
                0x76u8,
                0x65u8,
                0x72u8,
                0x73u8,
                0x69u8,
                0x6fu8,
                0x6eu8,
                0u8,
                0u8,
                0u8,
                0u8,
                0u8,
            ],
            Command::Verack => seq![
                0x76u8,
                0x65u8,
                0x72u8,
                0x61u8,
                0x63u8,
                0x6bu8,
                0u8,
                0u8,
                0u8,
                0u8,
                0u8,
                0u8,
            ],
            Command::Ping => seq![
                0x70u8,
                0x69u8,
                0x6eu8,
                0x67u8,
                0u8,
                0u8,
                0u8,
                0u8,
                0u8,
                0u8,
                0u8,
                0u8,
            ],
            Command::Pong => seq![
                0x70u8,
                0x6fu8,
                0x6eu8,
                0x67u8,
                0u8,
                0u8,
                0u8,
                0u8,
                0u8,
                0u8,
                0u8,
                0u8,
            ],
        }
    }

    /// The command a 12-byte tag identifies, if any.
    pub open spec fn spec_from_tag(tag: Seq<u8>) -> Option<Command> {
        if tag == Command::Version.spec_tag() {
            Some(Command::Version)
        } else if tag == Command::Verack.spec_tag() {
            Some(Command::Verack)
        } else if tag == Command::Ping.spec_tag() {
            Some(Command::Ping)
        } else if tag == Command::Pong.spec_tag() {
            Some(Command::Pong)
        } else {
            None
        }
    }

    /// Returns the 12-byte null-padded ASCII tag of this command.
    pub fn to_bytes(self) -> (r: [u8; 12])
        ensures
            r@ == self.spec_tag(),
    {
        let r: [u8; 12] = match self {
            Command::Version => [
                0x76,
                0x65,
                0x72,
                0x73,
                0x69,
                0x6f,
                0x6e,
                0,
                0,
                0,
                0,
                0,
            ],
            Command::Verack => [0x76, 0x65, 0x72, 0x61, 0x63, 0x6b, 0, 0, 0, 0, 0, 0],
            Command::Ping => [0x70, 0x69, 0x6e, 0x67, 0, 0, 0, 0, 0, 0, 0, 0],
            Command::Pong => [0x70, 0x6f, 0x6e, 0x67, 0, 0, 0, 0, 0, 0, 0, 0],
        };
        proof {
            assert(r@ =~= self.spec_tag());
        }
        r
    }

    /// Looks a 12-byte tag up; an unrecognized tag is rejected, never mapped
    /// to a default.
    pub fn from_tag(tag: &[u8]) -> (r: Option<Command>)
        requires
            tag@.len() == 12,
        ensures
            r == Self::spec_from_tag(tag@),
    {
        if bytes_eq(tag, Command::Version.to_bytes().as_slice()) {
            Some(Command::Version)
        } else if bytes_eq(tag, Command::Verack.to_bytes().as_slice()) {
            Some(Command::Verack)
        } else if bytes_eq(tag, Command::Ping.to_bytes().as_slice()) {
            Some(Command::Ping)
        } else if bytes_eq(tag, Command::Pong.to_bytes().as_slice()) {
            Some(Command::Pong)
        } else {
            None
        }
    }

    /// A command's tag always maps back to the command it came from.
    pub proof fn lemma_tag_round_trip(self)
        ensures
            Self::spec_from_tag(self.spec_tag()) == Some(self),
    {
        let v = Command::Version.spec_tag();
        let a = Command::Verack.spec_tag();
        let i = Command::Ping.spec_tag();
        let o = Command::Pong.spec_tag();
        assert(v[3] == 0x73u8 && a[3] == 0x61u8 && i[3] == 0x67u8 && o[3] == 0x67u8);
        assert(v[1] == 0x65u8 && i[1] == 0x69u8 && o[1] == 0x6fu8);
    }
}

/// Compares two byte slices for equality.
pub(crate) fn bytes_eq(a: &[u8], b: &[u8]) -> (r: bool)
    ensures
        r == (a@ == b@),
{
    if a.len() != b.len() {
        return false;
    }
    let n = a.len();
    let mut i: usize = 0;
    while i < n
        invariant
            n == a@.len() == b@.len(),
            0 <= i <= n,
            forall|j: int| 0 <= j < i ==> a@[j] == b@[j],
        decreases n - i,
    {
        if *vstd::slice::slice_index_get(a, i) != *vstd::slice::slice_index_get(b, i) {
            return false;
        }
        i += 1;
    }
    proof {
        assert(a@ =~= b@);
    }
    true
}

/// Wraps a payload with the network id, the command tag, the payload length
/// and the payload checksum.
#[derive(Clone, Copy, Debug, PartialEq, Eq, Structural)]
pub struct MessageHeader {
    /// Identifier of the origin network
    pub network: Network,
    /// Identifier of the packet content
    pub command: Command,
    /// Payload length in number of bytes
    pub length: u32,
    /// First 4 bytes of the double digest of the payload
    pub checksum: u32,
}

impl View for MessageHeader {
    type V = MessageHeader;

    open spec fn view(&self) -> MessageHeader {
        *self
    }
}

impl Codec for MessageHeader {
    open spec fn valid(&self) -> bool {
        true
    }

    open spec fn wire(v: MessageHeader) -> Seq<u8> {
        spec_u32_to_le_bytes(v.network.spec_magic()) + v.command.spec_tag() + spec_u32_to_le_bytes(
            v.length,
        ) + spec_u32_to_le_bytes(v.checksum)
    }

    open spec fn spec_decode(data: Seq<u8>) -> Result<(MessageHeader, int), CodecError> {
        if data.len() < 4 {
            Err(CodecError::InsufficientBytesError)
        } else {
            match Network::spec_from_magic(spec_u32_from_le_bytes(data.take(4))) {
                None => Err(CodecError::InvalidBytesError),
                Some(network) => {
                    let d1 = data.skip(4);
                    if d1.len() < 12 {
                        Err(CodecError::InsufficientBytesError)
                    } else {
                        match Command::spec_from_tag(d1.take(12)) {
                            None => Err(CodecError::InvalidBytesError),
                            Some(command) => {
                                let d2 = d1.skip(12);
                                if d2.len() < 4 {
                                    Err(CodecError::InsufficientBytesError)
                                } else {
                                    let length = spec_u32_from_le_bytes(d2.take(4));
                                    let d3 = d2.skip(4);
                                    if d3.len() < 4 {
                                        Err(CodecError::InsufficientBytesError)
                                    } else {
                                        let checksum = spec_u32_from_le_bytes(d3.take(4));
                                        Ok(
                                            (
                                                MessageHeader { network, command, length, checksum },
                                                24,
                                            ),
                                        )
                                    }
                                }
                            },
                        }
                    }
                },
            }
        }
    }

    fn encode(&self) -> (r: Vec<u8>)
        ensures
            r@ == Self::wire(self@),
    {
        let mut data = Vec::<u8>::new();
        write_u32_le(&mut data, self.network.magic());
        data.extend_from_slice(self.command.to_bytes().as_slice());
        write_u32_le(&mut data, self.length);
        write_u32_le(&mut data, self.checksum);
        proof {
            assert(data@ =~= Self::wire(self@));
        }
        data
    }

    fn decode(data: &mut &[u8]) -> (r: Result<Self, CodecError>) {
        let mut d: &[u8] = *data;
        let magic = match read_u32_le(&mut d) {
            Some(v) => v,
            None => {
                return Err(CodecError::InsufficientBytesError);
            },
        };
        let network = match Network::from_magic(magic) {
            Some(v) => v,
            None => {
                return Err(CodecError::InvalidBytesError);
            },
        };
        let tag = match read_slice(&mut d, 12) {
            Some(v) => v,
            None => {
                return Err(CodecError::InsufficientBytesError);
            },
        };
        let command = match Command::from_tag(tag) {
            Some(v) => v,
            None => {
                return Err(CodecError::InvalidBytesError);
            },
        };
        let length = match read_u32_le(&mut d) {
            Some(v) => v,
            None => {
                return Err(CodecError::InsufficientBytesError);
            },
        };
        let checksum = match read_u32_le(&mut d) {
            Some(v) => v,
            None => {
                return Err(CodecError::InsufficientBytesError);
            },
        };
        proof {
            lemma_seq_skip_of_skip(old(data)@, 4, 12);
            lemma_seq_skip_of_skip(old(data)@, 16, 4);
            lemma_seq_skip_of_skip(old(data)@, 20, 4);
        }
        *data = d;
        Ok(MessageHeader { network, command, length, checksum })
    }
}

/// Skipping `n` then `m` bytes is skipping `n + m` bytes, and the prefix seen
/// after skipping `n` is the corresponding middle part of the sequence.
pub(crate) proof fn lemma_seq_skip_of_skip(s: Seq<u8>, n: int, m: int)
    requires
        0 <= n,
        0 <= m,
        n + m <= s.len(),
    ensures
        s.skip(n).skip(m) == s.skip(n + m),
        s.skip(n).take(m) == s.subrange(n, n + m),
{
    assert(s.skip(n).skip(m) =~= s.skip(n + m));
    assert(s.skip(n).take(m) =~= s.subrange(n, n + m));
}

/// Relies on rand's `random`: a fresh arbitrary 64-bit value. Nothing is
/// assumed of which value comes back.
#[verifier::external_body]
pub(crate) fn random_u64() -> u64 {
    rand::random::<u64>()
}

/// The 32-byte digest that the outside hash computes over the given bytes.
pub uninterp spec fn sha256_of(data: Seq<u8>) -> Seq<u8>;

/// Relies on sha2's `Sha256` through `Digest::digest`: the digest is 32 bytes
/// long and a function of the input bytes alone.
#[verifier::external_body]
fn sha256(data: &[u8]) -> (r: Vec<u8>)
    ensures
        r@ == sha256_of(data@),
        r@.len() == 32,
{
    let digest = <sha2::Sha256 as sha2::Digest>::digest(data);
    digest.as_slice().to_vec()
}

/// The integrity checksum of a payload: the first four bytes of the double
/// digest, read as a little-endian 32-bit integer. A pure function of the
/// payload bytes alone.
pub open spec fn spec_checksum(payload: Seq<u8>) -> u32 {
    spec_u32_from_le_bytes(sha256_of(sha256_of(payload)).take(4))
}

/// Computes the integrity checksum of a payload.
pub fn calculate_checksum(data: &[u8]) -> (r: u32)
    ensures
        r == spec_checksum(data@),
{
    let first = sha256(data);
    let second = sha256(first.as_slice());
    let r = u32_from_le_bytes(slice_subrange(second.as_slice(), 0, 4));
    proof {
        assert(second@.subrange(0, 4) =~= sha256_of(sha256_of(data@)).take(4));
    }
    r
}

/// Equal payloads always yield equal checksums: the checksum depends on the
/// payload bytes alone, never on header fields or any outside state.
pub proof fn lemma_checksum_deterministic(a: Seq<u8>, b: Seq<u8>)
    requires
        a == b,
    ensures
        spec_checksum(a) == spec_checksum(b),
{
}

/// The bytes of one complete frame: the header naming the payload's length
/// and checksum, followed by the payload itself.
pub open spec fn spec_frame(network: Network, command: Command, payload: Seq<u8>) -> Seq<u8> {
    MessageHeader::wire(
        MessageHeader {
            network,
            command,
            length: payload.len() as u32,
            checksum: spec_checksum(payload),
        },
    ) + payload
}

/// Builds the frame for one outbound message: header first, payload after.
/// This is the only path by which outbound frames are constructed, so the
/// declared length and checksum always match the payload by construction.
pub fn compose<T: Codec>(network: Network, command: Command, payload: &T) -> (r: Vec<u8>)
    requires
        payload.valid(),
        T::wire(payload@).len() <= 0xffffffffu32,
    ensures
        r@ == spec_frame(network, command, T::wire(payload@)),
{
    let payload_data = payload.encode();
    let checksum = calculate_checksum(payload_data.as_slice());
    let header = MessageHeader { network, command, length: payload_data.len() as u32, checksum };
    let mut data = header.encode();
    data.extend_from_slice(payload_data.as_slice());
    proof {
        assert(data@ =~= spec_frame(network, command, T::wire(payload@)));
    }
    data
}

/// A header's wire image is always exactly 24 bytes.
pub proof fn lemma_header_wire_len(h: MessageHeader)
    ensures
        MessageHeader::wire(h).len() == 24,
{
    vstd::bytes::lemma_auto_spec_u32_to_from_le_bytes();
    assert(spec_u32_to_le_bytes(h.network.spec_magic()).len() == 4);
    assert(h.command.spec_tag().len() == 12);
    assert(spec_u32_to_le_bytes(h.length).len() == 4);
    assert(spec_u32_to_le_bytes(h.checksum).len() == 4);
}

/// Decoding an encoded header yields the header back and consumes exactly its
/// 24 bytes, whatever trails it.
pub proof fn lemma_header_round_trip(h: MessageHeader, rest: Seq<u8>)
    ensures
        MessageHeader::spec_decode(MessageHeader::wire(h) + rest) == Ok::<
            (MessageHeader, int),
            CodecError,
        >((h, 24)),
{
    vstd::bytes::lemma_auto_spec_u32_to_from_le_bytes();
    lemma_header_wire_len(h);
    let data = MessageHeader::wire(h) + rest;
    let magic_bytes = spec_u32_to_le_bytes(h.network.spec_magic());
    assert(magic_bytes.len() == 4);
    assert(data.take(4) =~= magic_bytes);
    h.network.lemma_magic_round_trip();
    let d1 = data.skip(4);
    assert(d1.take(12) =~= h.command.spec_tag());
    h.command.lemma_tag_round_trip();
    let d2 = d1.skip(12);
    assert(d2.take(4) =~= spec_u32_to_le_bytes(h.length));
    let d3 = d2.skip(4);
    assert(d3.take(4) =~= spec_u32_to_le_bytes(h.checksum));
}

/// Decoding an encoded header cut short anywhere before its 24th byte
/// reports insufficient bytes.
pub proof fn lemma_header_truncation(h: MessageHeader, n: int)
    requires
        0 <= n < 24,
    ensures
        MessageHeader::spec_decode(MessageHeader::wire(h).take(n)) == Err::<
            (MessageHeader, int),
            CodecError,
        >(CodecError::InsufficientBytesError),
{
    vstd::bytes::lemma_auto_spec_u32_to_from_le_bytes();
    lemma_header_wire_len(h);
    let data = MessageHeader::wire(h).take(n);
    assert(data.len() == n);
    if n >= 4 {
        let magic_bytes = spec_u32_to_le_bytes(h.network.spec_magic());
        assert(magic_bytes.len() == 4);
        assert(data.take(4) =~= magic_bytes);
        h.network.lemma_magic_round_trip();
        let d1 = data.skip(4);
        assert(d1.len() == n - 4);
        if n >= 16 {
            assert(d1.take(12) =~= h.command.spec_tag());
            h.command.lemma_tag_round_trip();
            let d2 = d1.skip(12);
            assert(d2.len() == n - 16);
            if n >= 20 {
                let d3 = d2.skip(4);
                assert(d3.len() == n - 20 < 4);
            }
        }
    }
}

/// Every frame the composer yields is consistent: its header decodes back,
/// the declared length is the payload's byte count, and the checksum field
/// verifies against the payload bytes that follow the header.
pub proof fn lemma_frame_consistent(network: Network, command: Command, payload: Seq<u8>)
    requires
        payload.len() <= 0xffffffffu32,
    ensures
        ({
            let frame = spec_frame(network, command, payload);
            let header = MessageHeader {
                network,
                command,
                length: payload.len() as u32,
                checksum: spec_checksum(payload),
            };
            &&& frame.len() == 24 + payload.len()
            &&& MessageHeader::spec_decode(frame) == Ok::<(MessageHeader, int), CodecError>(
                (header, 24),
            )
            &&& frame.skip(24) == payload
            &&& header.length == payload.len()
            &&& header.checksum == spec_checksum(frame.skip(24))
        }),
{
    let header = MessageHeader {
        network,
        command,
        length: payload.len() as u32,
        checksum: spec_checksum(payload),
    };
    lemma_header_wire_len(header);
    lemma_header_round_trip(header, payload);
    let frame = spec_frame(network, command, payload);
    assert(frame.skip(24) =~= payload);
}

} // verus!
