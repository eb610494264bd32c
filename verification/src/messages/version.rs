//! Version message: the capability/identity announcement that opens a
//! handshake.
//!
//! The field set actually present on the wire depends on the announced
//! protocol version: fields after the receiver address are absent when
//! `version < 106`, and the relay flag is absent when `version < 70001`.
//! Encoding and decoding apply the same threshold logic symmetrically, and
//! decoding fills the fields a low version excludes with neutral defaults.
//! The nonce is the one field encoded big-endian; the user agent is a 1-byte
//! length prefix followed by that many UTF-8 bytes.
use vstd::prelude::*;

verus! {

use vstd::bytes::spec_u64_to_le_bytes;
use vstd::utf8::decode_utf8;
use vstd::utf8::encode_utf8;
use vstd::utf8::valid_utf8;
use crate::cursor::read_i32_le;
use crate::cursor::read_i64_le;
use crate::cursor::read_slice;
use crate::cursor::read_u64_be;
use crate::cursor::read_u8;
use crate::cursor::spec_i32_from_le_bytes;
use crate::cursor::spec_i32_to_le_bytes;
use crate::cursor::spec_i64_from_le_bytes;
use crate::cursor::spec_i64_to_le_bytes;
use crate::cursor::spec_u64_from_be_bytes;
use crate::cursor::spec_u64_to_be_bytes;
use crate::cursor::write_i32_le;
use crate::cursor::write_i64_le;
use crate::cursor::write_u64_be;
use crate::messages::address::spec_empty_address;
use crate::messages::random_u64;
use crate::messages::Codec;
use crate::messages::CodecError;
use crate::messages::NetworkAddress;
use crate::messages::NetworkAddressView;
use crate::messages::Services;
use crate::node::NodeConfig;

/// The abstract value of a version message: every field always logically
/// present, whether or not the announced version puts it on the wire.
#[verifier::ext_equal]
pub struct VersionMessageView {
    pub version: i32,
    pub services: u64,
    pub timestamp: i64,
    pub receiver: NetworkAddressView,
    pub sender: NetworkAddressView,
    pub nonce: u64,
    pub user_agent: Seq<char>,
    pub start_height: i32,
    pub relay: bool,
}

/// Capability/identity announcement. One struct carries all fields in
/// memory; the encoder and decoder branch on `version` to include or exclude
/// byte ranges.
#[derive(Debug)]
pub struct VersionMessage {
    /// Protocol version used by the node
    pub version: i32,
    /// Features to be enabled for the current connection
    pub services: Services,
    /// Standard UNIX timestamp in seconds
    timestamp: i64,
    /// Network address of the node receiving this message
    receiver: NetworkAddress,
    /// Network address of the node sending this message (can be ignored)
    sender: NetworkAddress,
    /// Random nonce used to detect connections to self
    nonce: u64,
    /// User agent
    pub user_agent: String,
    /// Last block received by the emitting node
    pub start_height: i32,
    /// Whether the remote peer should announce relayed transactions or not
    pub relay: bool,
}

impl View for VersionMessage {
    type V = VersionMessageView;

    closed spec fn view(&self) -> VersionMessageView {
        VersionMessageView {
            version: self.version,
            services: self.services@,
            timestamp: self.timestamp,
            receiver: self.receiver@,
            sender: self.sender@,
            nonce: self.nonce,
            user_agent: self.user_agent@,
            start_height: self.start_height,
            relay: self.relay,
        }
    }
}

/// Relies on std's `SystemTime`: the seconds elapsed since the epoch, or
/// zero when the clock reads earlier than the epoch.
#[verifier::external_body]
fn unix_time_seconds() -> (r: i64)
    ensures
        r >= 0,
{
    match std::time::SystemTime::now().duration_since(std::time::UNIX_EPOCH) {
        Ok(d) => i64::try_from(d.as_secs()).unwrap_or(i64::MAX),
        Err(_) => 0,
    }
}

/// Relies on std's `str::from_utf8`: it returns `Ok` exactly when the bytes
/// are a valid UTF-8 encoding, and the returned string then views those same
/// bytes.
#[verifier::external_body]
fn bytes_to_string(v: &[u8]) -> (r: Option<String>)
    ensures
        match r {
            Some(s) => valid_utf8(v@) && s@ == decode_utf8(v@),
            None => !valid_utf8(v@),
        },
{
    match std::str::from_utf8(v) {
        Ok(s) => Some(s.to_owned()),
        Err(_) => None,
    }
}

/// Reads the trailing fields shared by every version at least 106: the start
/// height, then the relay flag when the version carries one.
pub open spec fn spec_decode_trailer(
    version: i32,
    services: u64,
    timestamp: i64,
    receiver: NetworkAddressView,
    sender: NetworkAddressView,
    nonce: u64,
    user_agent: Seq<char>,
    d: Seq<u8>,
    consumed: int,
) -> Result<(VersionMessageView, int), CodecError> {
    if d.len() < 4 {
        Err(CodecError::InsufficientBytesError)
    } else {
        let start_height = spec_i32_from_le_bytes(d.take(4));
        let d2 = d.skip(4);
        if version < 70001 {
            Ok(
                (
                    VersionMessageView {
                        version,
                        services,
                        timestamp,
                        receiver,
                        sender,
                        nonce,
                        user_agent,
                        start_height,
                        relay: false,
                    },
                    consumed + 4,
                ),
            )
        } else if d2.len() < 1 {
            Err(CodecError::InsufficientBytesError)
        } else {
            Ok(
                (
                    VersionMessageView {
                        version,
                        services,
                        timestamp,
                        receiver,
                        sender,
                        nonce,
                        user_agent,
                        start_height,
                        relay: d2[0] == 1u8,
                    },
                    consumed + 5,
                ),
            )
        }
    }
}

/// Reads the fields present only from version 106 on: the sender address,
/// the big-endian nonce, the length-prefixed user agent, and the trailer.
/// `d` is what follows the receiver address, 46 bytes into the payload.
pub open spec fn spec_decode_extended(
    version: i32,
    services: u64,
    timestamp: i64,
    receiver: NetworkAddressView,
    d: Seq<u8>,
) -> Result<(VersionMessageView, int), CodecError> {
    match NetworkAddress::spec_decode(d) {
        Err(e) => Err(e),
        Ok(sn) => {
            let sender = sn.0;
            let d5 = d.skip(26);
            if d5.len() < 8 {
                Err(CodecError::InsufficientBytesError)
            } else {
                let nonce = spec_u64_from_be_bytes(d5.take(8));
                let d6 = d5.skip(8);
                spec_decode_user_agent(version, services, timestamp, receiver, sender, nonce, d6)
            }
        },
    }
}

/// Reads the length-prefixed user agent and hands what follows to the
/// trailer. `d` is what follows the nonce, 80 bytes into the payload.
pub open spec fn spec_decode_user_agent(
    version: i32,
    services: u64,
    timestamp: i64,
    receiver: NetworkAddressView,
    sender: NetworkAddressView,
    nonce: u64,
    d: Seq<u8>,
) -> Result<(VersionMessageView, int), CodecError> {
    if d.len() < 1 {
        Err(CodecError::InsufficientBytesError)
    } else {
        let k = d[0];
        let d2 = d.skip(1);
        if k == 0 {
            spec_decode_trailer(
                version,
                services,
                timestamp,
                receiver,
                sender,
                nonce,
                Seq::empty(),
                d2,
                81,
            )
        } else if d2.len() < k as int {
            Err(CodecError::InsufficientBytesError)
        } else {
            let ub = d2.take(k as int);
            if !valid_utf8(ub) {
                Err(CodecError::InvalidBytesError)
            } else {
                spec_decode_trailer(
                    version,
                    services,
                    timestamp,
                    receiver,
                    sender,
                    nonce,
                    decode_utf8(ub),
                    d2.skip(k as int),
                    81 + k as int,
                )
            }
        }
    }
}

impl Codec for VersionMessage {
    /// The wire format can carry a user agent of at most 255 UTF-8 bytes:
    /// its length must fit the 1-byte prefix.
    open spec fn valid(&self) -> bool {
        encode_utf8(self@.user_agent).len() <= 255
    }

    open spec fn wire(v: VersionMessageView) -> Seq<u8> {
        spec_i32_to_le_bytes(v.version) + spec_u64_to_le_bytes(v.services) + spec_i64_to_le_bytes(
            v.timestamp,
        ) + NetworkAddress::wire(v.receiver) + if v.version < 106 {
            Seq::<u8>::empty()
        } else {
            NetworkAddress::wire(v.sender) + spec_u64_to_be_bytes(v.nonce) + seq![
                encode_utf8(v.user_agent).len() as u8,
            ] + encode_utf8(v.user_agent) + spec_i32_to_le_bytes(v.start_height) + if v.version
                < 70001 {
                Seq::<u8>::empty()
            } else {
                seq![if v.relay { 1u8 } else { 0u8 }]
            }
        }
    }

    open spec fn spec_decode(data: Seq<u8>) -> Result<(VersionMessageView, int), CodecError> {
        if data.len() < 4 {
            Err(CodecError::InsufficientBytesError)
        } else {
            let version = spec_i32_from_le_bytes(data.take(4));
            let d1 = data.skip(4);
            match Services::spec_decode(d1) {
                Err(e) => Err(e),
                Ok(sp) => {
                    let services = sp.0;
                    let d2 = d1.skip(8);
                    if d2.len() < 8 {
                        Err(CodecError::InsufficientBytesError)
                    } else {
                        let timestamp = spec_i64_from_le_bytes(d2.take(8));
                        let d3 = d2.skip(8);
                        match NetworkAddress::spec_decode(d3) {
                            Err(e) => Err(e),
                            Ok(rp) => {
                                let receiver = rp.0;
                                let d4 = d3.skip(26);
                                if version < 106 {
                                    Ok(
                                        (
                                            VersionMessageView {
                                                version,
                                                services,
                                                timestamp,
                                                receiver,
                                                sender: spec_empty_address(),
                                                nonce: 0u64,
                                                user_agent: Seq::empty(),
                                                start_height: 0i32,
                                                relay: false,
                                            },
                                            46,
                                        ),
                                    )
                                } else {
                                    spec_decode_extended(version, services, timestamp, receiver, d4)
                                }
                            },
                        }
                    }
                },
            }
        }
    }

    fn encode(&self) -> (r: Vec<u8>)
        ensures
            r@ == Self::wire(self@),
    {
        let mut data = Vec::<u8>::new();
        write_i32_le(&mut data, self.version);
        let services_data = self.services.encode();
        data.extend_from_slice(services_data.as_slice());
        write_i64_le(&mut data, self.timestamp);
        let receiver_data = self.receiver.encode();
        data.extend_from_slice(receiver_data.as_slice());

        if self.version < 106 {
            proof {
                assert(data@ =~= Self::wire(self@));
            }
            return data;
        }

        let sender_data = self.sender.encode();
        data.extend_from_slice(sender_data.as_slice());
        write_u64_be(&mut data, self.nonce);

        // User agent: one length byte, then that many UTF-8 bytes.
        let user_agent_bytes = self.user_agent.as_str().as_bytes();
        data.push(user_agent_bytes.len() as u8);
        if user_agent_bytes.len() > 0 {
            data.extend_from_slice(user_agent_bytes);
        }

        write_i32_le(&mut data, self.start_height);

        if self.version < 70001 {
            proof {
                assert(data@ =~= Self::wire(self@));
            }
            return data;
        }

        data.push(if self.relay { 1 } else { 0 });
        proof {
            assert(data@ =~= Self::wire(self@));
        }
        data
    }

    fn decode(data: &mut &[u8]) -> (r: Result<Self, CodecError>) {
        let mut d: &[u8] = *data;
        let version = match read_i32_le(&mut d) {
            Some(v) => v,
            None => {
                return Err(CodecError::InsufficientBytesError);
            },
        };
        let services = match Services::decode(&mut d) {
            Ok(v) => v,
            Err(e) => {
                return Err(e);
            },
        };
        let timestamp = match read_i64_le(&mut d) {
            Some(v) => v,
            None => {
                return Err(CodecError::InsufficientBytesError);
            },
        };
        let receiver = match NetworkAddress::decode(&mut d) {
            Ok(v) => v,
            Err(e) => {
                return Err(e);
            },
        };

        if version < 106 {
            let r = Self {
                version,
                services,
                timestamp,
                receiver,
                sender: NetworkAddress::empty(),
                nonce: 0,
                user_agent: String::new(),
                start_height: 0,
                relay: false,
            };
            proof {
                assert(d@ =~= old(data)@.skip(46));
                assert(r@ =~= Self::spec_decode(old(data)@)->Ok_0.0);
            }
            *data = d;
            return Ok(r);
        }

        let sender = match NetworkAddress::decode(&mut d) {
            Ok(v) => v,
            Err(e) => {
                return Err(e);
            },
        };
        let nonce = match read_u64_be(&mut d) {
            Some(v) => v,
            None => {
                return Err(CodecError::InsufficientBytesError);
            },
        };
        let user_agent_length = match read_u8(&mut d) {
            Some(v) => v,
            None => {
                return Err(CodecError::InsufficientBytesError);
            },
        };

        let mut user_agent = String::new();
        if user_agent_length != 0 {
            let user_agent_data = match read_slice(&mut d, user_agent_length as usize) {
                Some(v) => v,
                None => {
                    return Err(CodecError::InsufficientBytesError);
                },
            };
            user_agent = match bytes_to_string(user_agent_data) {
                Some(v) => v,
                None => {
                    return Err(CodecError::InvalidBytesError);
                },
            };
            proof {
                vstd::utf8::decode_utf8_encode_utf8(user_agent_data@);
            }
        }

        let start_height = match read_i32_le(&mut d) {
            Some(v) => v,
            None => {
                return Err(CodecError::InsufficientBytesError);
            },
        };

        if version < 70001 {
            let r = Self {
                version,
                services,
                timestamp,
                receiver,
                sender,
                nonce,
                user_agent,
                start_height,
                relay: false,
            };
            proof {
                if user_agent_length == 0 {
                    assert(d@ =~= old(data)@.skip(85));
                } else {
                    assert(d@ =~= old(data)@.skip(85 + user_agent_length as int));
                }
                assert(r@ =~= Self::spec_decode(old(data)@)->Ok_0.0);
            }
            *data = d;
            return Ok(r);
        }

        let relay_byte = match read_u8(&mut d) {
            Some(v) => v,
            None => {
                return Err(CodecError::InsufficientBytesError);
            },
        };
        let relay = relay_byte == 0x01;

        let r = Self {
            version,
            services,
            timestamp,
            receiver,
            sender,
            nonce,
            user_agent,
            start_height,
            relay,
        };
        proof {
            if user_agent_length == 0 {
                assert(d@ =~= old(data)@.skip(86));
            } else {
                assert(d@ =~= old(data)@.skip(86 + user_agent_length as int));
            }
            assert(r@ =~= Self::spec_decode(old(data)@)->Ok_0.0);
        }
        *data = d;
        Ok(r)
    }
}

impl VersionMessage {
    /// Builds a fresh announcement for one handshake: the local node's
    /// configured identity, the given receiver address (announced with the
    /// local services), the clock's time and a random nonce. The sender
    /// address is left as the all-zero placeholder.
    pub fn new(receiver_address: [u8; 16], receiver_port: u16, config: &NodeConfig) -> (r: Self)
        ensures
            r@.version == config.version,
            r@.services == config.services@,
            r@.timestamp >= 0,
            r@.receiver == (NetworkAddressView {
                services: config.services@,
                octets: receiver_address@,
                port: receiver_port,
            }),
            r@.sender == spec_empty_address(),
            r@.user_agent == config.user_agent@,
            r@.start_height == config.start_height,
            r@.relay == config.relay,
            config.valid() ==> r.valid(),
    {
        let timestamp = unix_time_seconds();
        Self {
            version: config.version,
            services: config.services,
            timestamp,
            receiver: NetworkAddress::new(config.services, receiver_address, receiver_port),
            sender: NetworkAddress::empty(),
            nonce: random_u64(),
            user_agent: config.user_agent.clone(),
            start_height: config.start_height,
            relay: config.relay,
        }
    }

    /// Builds a message from every field explicitly.
    pub fn from_parts(
        version: i32,
        services: Services,
        timestamp: i64,
        receiver: NetworkAddress,
        sender: NetworkAddress,
        nonce: u64,
        user_agent: String,
        start_height: i32,
        relay: bool,
    ) -> (r: Self)
        ensures
            r@ == (VersionMessageView {
                version,
                services: services@,
                timestamp,
                receiver: receiver@,
                sender: sender@,
                nonce,
                user_agent: user_agent@,
                start_height,
                relay,
            }),
    {
        Self {
            version,
            services,
            timestamp,
            receiver,
            sender,
            nonce,
            user_agent,
            start_height,
            relay,
        }
    }

    /// The subset of this message retained as a peer's configuration: what
    /// the handshake reports about the node that sent it.
    pub fn into_config(self) -> (r: NodeConfig)
        ensures
            r@ == crate::node::spec_peer_config(self@),
    {
        NodeConfig {
            version: self.version,
            services: self.services,
            user_agent: self.user_agent,
            start_height: self.start_height,
            relay: self.relay,
        }
    }

    /// Gets the UNIX timestamp in seconds.
    pub fn timestamp(&self) -> (r: i64)
        ensures
            r == self@.timestamp,
    {
        self.timestamp
    }

    /// Gets the receiver's node address.
    pub fn receiver(&self) -> (r: &NetworkAddress)
        ensures
            r@ == self@.receiver,
    {
        &self.receiver
    }

    /// Gets the random nonce.
    pub fn nonce(&self) -> (r: u64)
        ensures
            r == self@.nonce,
    {
        self.nonce
    }
}

/// The fields a low version leaves off the wire hold their neutral defaults:
/// what `spec_decode` fills in for them, so that re-encoding is faithful.
pub open spec fn spec_canonical(v: VersionMessageView) -> bool {
    &&& (v.version < 106 ==> v.sender == spec_empty_address() && v.nonce == 0u64 && v.user_agent
        == Seq::<char>::empty() && v.start_height == 0i32 && !v.relay)
    &&& (v.version < 70001 ==> !v.relay)
}

/// A nonempty character sequence never encodes to zero UTF-8 bytes.
proof fn lemma_encode_utf8_nonempty(chars: Seq<char>)
    requires
        chars.len() > 0,
    ensures
        encode_utf8(chars).len() >= 1,
{
    assert(encode_utf8(chars) == vstd::utf8::encode_scalar(chars[0] as u32) + encode_utf8(
        chars.drop_first(),
    ));
    assert(vstd::utf8::encode_scalar(chars[0] as u32).len() >= 1);
}

/// Version gating: a payload encoded with a version below 106 consists of
/// exactly the version, services, timestamp and receiver fields (46 bytes,
/// with no sender, nonce, user agent, start height or relay bytes); one
/// encoded with a version from 106 up to 70000 carries those fields but no
/// relay byte; one encoded with a version of at least 70001 carries every
/// field including the relay byte.
pub proof fn lemma_version_gating(v: VersionMessageView)
    requires
        v.receiver.octets.len() == 16,
        v.sender.octets.len() == 16,
        encode_utf8(v.user_agent).len() <= 255,
    ensures
        v.version < 106 ==> VersionMessage::wire(v) == spec_i32_to_le_bytes(v.version)
            + spec_u64_to_le_bytes(v.services) + spec_i64_to_le_bytes(v.timestamp)
            + NetworkAddress::wire(v.receiver),
        v.version < 106 ==> VersionMessage::wire(v).len() == 46,
        106 <= v.version < 70001 ==> VersionMessage::wire(v) == spec_i32_to_le_bytes(v.version)
            + spec_u64_to_le_bytes(v.services) + spec_i64_to_le_bytes(v.timestamp)
            + NetworkAddress::wire(v.receiver) + NetworkAddress::wire(v.sender)
            + spec_u64_to_be_bytes(v.nonce) + seq![encode_utf8(v.user_agent).len() as u8]
            + encode_utf8(v.user_agent) + spec_i32_to_le_bytes(v.start_height),
        106 <= v.version < 70001 ==> VersionMessage::wire(v).len() == 85 + encode_utf8(
            v.user_agent,
        ).len(),
        v.version >= 70001 ==> VersionMessage::wire(v) == spec_i32_to_le_bytes(v.version)
            + spec_u64_to_le_bytes(v.services) + spec_i64_to_le_bytes(v.timestamp)
            + NetworkAddress::wire(v.receiver) + NetworkAddress::wire(v.sender)
            + spec_u64_to_be_bytes(v.nonce) + seq![encode_utf8(v.user_agent).len() as u8]
            + encode_utf8(v.user_agent) + spec_i32_to_le_bytes(v.start_height) + seq![
            if v.relay {
                1u8
            } else {
                0u8
            },
        ],
        v.version >= 70001 ==> VersionMessage::wire(v).len() == 86 + encode_utf8(
            v.user_agent,
        ).len(),
        VersionMessage::wire(v).len() <= 341,
{
    vstd::bytes::lemma_auto_spec_u32_to_from_le_bytes();
    vstd::bytes::lemma_auto_spec_u64_to_from_le_bytes();
    assert(spec_i32_to_le_bytes(v.version).len() == 4);
    assert(spec_u64_to_le_bytes(v.services).len() == 8);
    assert(spec_i64_to_le_bytes(v.timestamp).len() == 8);
    assert(NetworkAddress::wire(v.receiver).len() == 26);
    assert(NetworkAddress::wire(v.sender).len() == 26);
    assert(spec_u64_to_be_bytes(v.nonce).len() == 8);
    assert(spec_i32_to_le_bytes(v.start_height).len() == 4);
    if v.version < 106 {
        assert(VersionMessage::wire(v) =~= spec_i32_to_le_bytes(v.version) + spec_u64_to_le_bytes(
            v.services,
        ) + spec_i64_to_le_bytes(v.timestamp) + NetworkAddress::wire(v.receiver));
    } else if v.version < 70001 {
        assert(VersionMessage::wire(v) =~= spec_i32_to_le_bytes(v.version) + spec_u64_to_le_bytes(
            v.services,
        ) + spec_i64_to_le_bytes(v.timestamp) + NetworkAddress::wire(v.receiver)
            + NetworkAddress::wire(v.sender) + spec_u64_to_be_bytes(v.nonce) + seq![
            encode_utf8(v.user_agent).len() as u8,
        ] + encode_utf8(v.user_agent) + spec_i32_to_le_bytes(v.start_height));
    } else {
        assert(VersionMessage::wire(v) =~= spec_i32_to_le_bytes(v.version) + spec_u64_to_le_bytes(
            v.services,
        ) + spec_i64_to_le_bytes(v.timestamp) + NetworkAddress::wire(v.receiver)
            + NetworkAddress::wire(v.sender) + spec_u64_to_be_bytes(v.nonce) + seq![
            encode_utf8(v.user_agent).len() as u8,
        ] + encode_utf8(v.user_agent) + spec_i32_to_le_bytes(v.start_height) + seq![
            if v.relay {
                1u8
            } else {
                0u8
            },
        ]);
    }
}

/// Decoding an encoded version message yields the message back and consumes
/// exactly its wire image, whatever trails it, on every version-threshold
/// branch.
pub proof fn lemma_version_round_trip(v: VersionMessageView, rest: Seq<u8>)
    requires
        v.receiver.octets.len() == 16,
        v.sender.octets.len() == 16,
        encode_utf8(v.user_agent).len() <= 255,
        spec_canonical(v),
    ensures
        VersionMessage::spec_decode(VersionMessage::wire(v) + rest) == Ok::<
            (VersionMessageView, int),
            CodecError,
        >((v, VersionMessage::wire(v).len() as int)),
{
    vstd::bytes::lemma_auto_spec_u32_to_from_le_bytes();
    vstd::bytes::lemma_auto_spec_u64_to_from_le_bytes();
    crate::cursor::lemma_signed_le_bytes_round_trip();
    lemma_version_gating(v);
    if v.version < 106 {
        let w = VersionMessage::wire(v);
        let data = w + rest;
        assert(spec_i32_to_le_bytes(v.version).len() == 4);
        assert(data.take(4) =~= spec_i32_to_le_bytes(v.version));
        let d1 = data.skip(4);
        let tail1 = spec_i64_to_le_bytes(v.timestamp) + NetworkAddress::wire(v.receiver) + rest;
        assert(d1 =~= crate::messages::Services::wire(v.services) + tail1);
        crate::messages::services::lemma_services_round_trip(v.services, tail1);
        let d2 = d1.skip(8);
        assert(d2 =~= spec_i64_to_le_bytes(v.timestamp) + (NetworkAddress::wire(v.receiver)
            + rest));
        assert(d2.take(8) =~= spec_i64_to_le_bytes(v.timestamp));
        let d3 = d2.skip(8);
        assert(d3 =~= NetworkAddress::wire(v.receiver) + rest);
        crate::messages::address::lemma_address_round_trip(v.receiver, rest);
        let decoded = VersionMessage::spec_decode(data)->Ok_0.0;
        assert(decoded =~= v);
    } else {
        lemma_version_round_trip_ge_106(v, rest);
    }
}

/// The high-version half of the round trip: the front 46 bytes read back,
/// then the extended fields.
#[verifier::rlimit(100)]
#[verifier::spinoff_prover]
proof fn lemma_version_round_trip_ge_106(v: VersionMessageView, rest: Seq<u8>)
    requires
        v.version >= 106,
        v.receiver.octets.len() == 16,
        v.sender.octets.len() == 16,
        encode_utf8(v.user_agent).len() <= 255,
        spec_canonical(v),
    ensures
        VersionMessage::spec_decode(VersionMessage::wire(v) + rest) == Ok::<
            (VersionMessageView, int),
            CodecError,
        >((v, VersionMessage::wire(v).len() as int)),
{
    vstd::bytes::lemma_auto_spec_u32_to_from_le_bytes();
    vstd::bytes::lemma_auto_spec_u64_to_from_le_bytes();
    crate::cursor::lemma_signed_le_bytes_round_trip();
    lemma_version_gating(v);
    let w = VersionMessage::wire(v);
    let data = w + rest;
    let ua = encode_utf8(v.user_agent);
    let relay_part: Seq<u8> = if v.version < 70001 {
        Seq::<u8>::empty()
    } else {
        seq![if v.relay { 1u8 } else { 0u8 }]
    };
    let after_recv = NetworkAddress::wire(v.sender) + spec_u64_to_be_bytes(v.nonce) + seq![
        ua.len() as u8,
    ] + ua + spec_i32_to_le_bytes(v.start_height) + relay_part + rest;
    assert(spec_i32_to_le_bytes(v.version).len() == 4);
    assert(data.take(4) =~= spec_i32_to_le_bytes(v.version));
    let d1 = data.skip(4);
    let tail1 = spec_i64_to_le_bytes(v.timestamp) + NetworkAddress::wire(v.receiver) + after_recv;
    assert(d1 =~= crate::messages::Services::wire(v.services) + tail1);
    crate::messages::services::lemma_services_round_trip(v.services, tail1);
    let d2 = d1.skip(8);
    assert(d2 =~= spec_i64_to_le_bytes(v.timestamp) + (NetworkAddress::wire(v.receiver)
        + after_recv));
    assert(d2.take(8) =~= spec_i64_to_le_bytes(v.timestamp));
    let d3 = d2.skip(8);
    assert(d3 =~= NetworkAddress::wire(v.receiver) + after_recv);
    crate::messages::address::lemma_address_round_trip(v.receiver, after_recv);
    let d4 = d3.skip(26);
    assert(d4 =~= after_recv);
    lemma_version_extended(v, after_recv, rest);
    if v.version < 70001 {
        assert(w.len() == 85 + ua.len());
    } else {
        assert(w.len() == 86 + ua.len());
    }
}

/// Reading the extended fields of an encoded version message of at least 106
/// yields the sender, nonce and user agent, then the trailer.
#[verifier::rlimit(100)]
#[verifier::spinoff_prover]
proof fn lemma_version_extended(v: VersionMessageView, d: Seq<u8>, rest: Seq<u8>)
    requires
        v.version >= 106,
        v.sender.octets.len() == 16,
        encode_utf8(v.user_agent).len() <= 255,
        v.version < 70001 ==> !v.relay,
        d == NetworkAddress::wire(v.sender) + spec_u64_to_be_bytes(v.nonce) + seq![
            encode_utf8(v.user_agent).len() as u8,
        ] + encode_utf8(v.user_agent) + spec_i32_to_le_bytes(v.start_height) + (if v.version
            < 70001 {
            Seq::<u8>::empty()
        } else {
            seq![if v.relay { 1u8 } else { 0u8 }]
        }) + rest,
    ensures
        spec_decode_extended(v.version, v.services, v.timestamp, v.receiver, d) == Ok::<
            (VersionMessageView, int),
            CodecError,
        >(
            (
                v,
                if v.version < 70001 {
                    85 + encode_utf8(v.user_agent).len() as int
                } else {
                    86 + encode_utf8(v.user_agent).len() as int
                },
            ),
        ),
{
    crate::cursor::lemma_u64_be_bytes_round_trip();
    vstd::bytes::lemma_auto_spec_u64_to_from_le_bytes();
    let ua = encode_utf8(v.user_agent);
    let relay_part: Seq<u8> = if v.version < 70001 {
        Seq::<u8>::empty()
    } else {
        seq![if v.relay { 1u8 } else { 0u8 }]
    };
    let after_sender = spec_u64_to_be_bytes(v.nonce) + seq![ua.len() as u8] + ua
        + spec_i32_to_le_bytes(v.start_height) + relay_part + rest;
    assert(spec_u64_to_le_bytes(v.sender.services).len() == 8);
    assert(NetworkAddress::wire(v.sender).len() == 26);
    assert(d =~= NetworkAddress::wire(v.sender) + after_sender);
    crate::messages::address::lemma_address_round_trip(v.sender, after_sender);
    let d5 = d.skip(26);
    assert(d5 =~= after_sender);
    assert(d5.take(8) =~= spec_u64_to_be_bytes(v.nonce));
    let d6 = d5.skip(8);
    let after_nonce = seq![ua.len() as u8] + ua + spec_i32_to_le_bytes(v.start_height) + relay_part
        + rest;
    assert(d6 =~= after_nonce);
    lemma_version_user_agent(v, after_nonce, rest);
}

/// Reading the length-prefixed user agent of an encoded version message
/// yields the user agent back, then the trailer.
#[verifier::rlimit(100)]
#[verifier::spinoff_prover]
proof fn lemma_version_user_agent(v: VersionMessageView, d: Seq<u8>, rest: Seq<u8>)
    requires
        v.version >= 106,
        encode_utf8(v.user_agent).len() <= 255,
        v.version < 70001 ==> !v.relay,
        d == seq![encode_utf8(v.user_agent).len() as u8] + encode_utf8(v.user_agent)
            + spec_i32_to_le_bytes(v.start_height) + (if v.version < 70001 {
            Seq::<u8>::empty()
        } else {
            seq![if v.relay { 1u8 } else { 0u8 }]
        }) + rest,
    ensures
        spec_decode_user_agent(
            v.version,
            v.services,
            v.timestamp,
            v.receiver,
            v.sender,
            v.nonce,
            d,
        ) == Ok::<(VersionMessageView, int), CodecError>(
            (
                v,
                if v.version < 70001 {
                    85 + encode_utf8(v.user_agent).len() as int
                } else {
                    86 + encode_utf8(v.user_agent).len() as int
                },
            ),
        ),
{
    let ua = encode_utf8(v.user_agent);
    let relay_part: Seq<u8> = if v.version < 70001 {
        Seq::<u8>::empty()
    } else {
        seq![if v.relay { 1u8 } else { 0u8 }]
    };
    let after_ua = spec_i32_to_le_bytes(v.start_height) + relay_part + rest;
    assert(d[0] == ua.len() as u8);
    let d2 = d.skip(1);
    assert(d2 =~= ua + after_ua);
    let k = d[0];
    if v.user_agent.len() == 0 {
        assert(v.user_agent =~= Seq::<char>::empty());
        assert(ua.len() == 0);
        assert(k == 0);
        assert(d2 =~= after_ua);
        lemma_version_trailer(v, d2, rest, 81);
    } else {
        lemma_encode_utf8_nonempty(v.user_agent);
        assert(k as int == ua.len());
        assert(k != 0);
        assert(d2.take(k as int) =~= ua);
        vstd::utf8::encode_utf8_valid_utf8(v.user_agent);
        vstd::utf8::encode_utf8_decode_utf8(v.user_agent);
        assert(d2.skip(k as int) =~= after_ua);
        lemma_version_trailer(v, d2.skip(k as int), rest, 81 + k as int);
    }
}

/// Reading the trailer of an encoded version message of at least 106 yields
/// the message's remaining fields.
proof fn lemma_version_trailer(v: VersionMessageView, d: Seq<u8>, rest: Seq<u8>, consumed: int)
    requires
        v.version >= 106,
        v.version < 70001 ==> !v.relay,
        d == spec_i32_to_le_bytes(v.start_height) + (if v.version < 70001 {
            Seq::<u8>::empty()
        } else {
            seq![if v.relay { 1u8 } else { 0u8 }]
        }) + rest,
    ensures
        spec_decode_trailer(
            v.version,
            v.services,
            v.timestamp,
            v.receiver,
            v.sender,
            v.nonce,
            v.user_agent,
            d,
            consumed,
        ) == Ok::<(VersionMessageView, int), CodecError>(
            (
                v,
                if v.version < 70001 {
                    consumed + 4
                } else {
                    consumed + 5
                },
            ),
        ),
{
    crate::cursor::lemma_signed_le_bytes_round_trip();
    vstd::bytes::lemma_auto_spec_u32_to_from_le_bytes();
    assert(spec_i32_to_le_bytes(v.start_height).len() == 4);
    assert(d.take(4) =~= spec_i32_to_le_bytes(v.start_height));
    let d2 = d.skip(4);
    if v.version < 70001 {
        let decoded = spec_decode_trailer(
            v.version,
            v.services,
            v.timestamp,
            v.receiver,
            v.sender,
            v.nonce,
            v.user_agent,
            d,
            consumed,
        )->Ok_0.0;
        assert(decoded =~= v);
    } else {
        assert(d2[0] == (if v.relay { 1u8 } else { 0u8 }));
        let decoded = spec_decode_trailer(
            v.version,
            v.services,
            v.timestamp,
            v.receiver,
            v.sender,
            v.nonce,
            v.user_agent,
            d,
            consumed,
        )->Ok_0.0;
        assert(decoded =~= v);
    }
}

/// Decoding an encoded version message cut short anywhere before its last
/// byte reports insufficient bytes, on every version-threshold branch.
#[verifier::rlimit(100)]
#[verifier::spinoff_prover]
pub proof fn lemma_version_truncation(v: VersionMessageView, n: int)
    requires
        v.receiver.octets.len() == 16,
        v.sender.octets.len() == 16,
        encode_utf8(v.user_agent).len() <= 255,
        spec_canonical(v),
        0 <= n < VersionMessage::wire(v).len(),
    ensures
        VersionMessage::spec_decode(VersionMessage::wire(v).take(n)) == Err::<
            (VersionMessageView, int),
            CodecError,
        >(CodecError::InsufficientBytesError),
{
    vstd::bytes::lemma_auto_spec_u32_to_from_le_bytes();
    vstd::bytes::lemma_auto_spec_u64_to_from_le_bytes();
    lemma_version_gating(v);
    let w = VersionMessage::wire(v);
    let data = w.take(n);
    assert(data.len() == n);
    if n >= 4 {
        assert(data.take(4) =~= spec_i32_to_le_bytes(v.version));
        let d1 = data.skip(4);
        assert(d1.len() == n - 4);
        if n >= 12 {
            let tail1 = d1.skip(8);
            assert(d1 =~= crate::messages::Services::wire(v.services) + tail1);
            crate::messages::services::lemma_services_round_trip(v.services, tail1);
            let d2 = d1.skip(8);
            assert(d2.len() == n - 12);
            if n >= 20 {
                assert(d2.take(8) =~= spec_i64_to_le_bytes(v.timestamp));
                let d3 = d2.skip(8);
                assert(d3.len() == n - 20);
                if n >= 46 {
                    assert(v.version >= 106);
                    let tail3 = d3.skip(26);
                    assert(d3 =~= NetworkAddress::wire(v.receiver) + tail3);
                    crate::messages::address::lemma_address_round_trip(v.receiver, tail3);
                    let d4 = d3.skip(26);
                    assert(d4 =~= w.skip(46).take(n - 46));
                    lemma_version_extended_truncation(v, n - 46);
                }
            }
        }
    }
}

/// Truncation of the extended fields: cutting the bytes that follow the
/// receiver address short of their full length reports insufficient bytes.
#[verifier::rlimit(100)]
#[verifier::spinoff_prover]
proof fn lemma_version_extended_truncation(v: VersionMessageView, m: int)
    requires
        v.version >= 106,
        v.receiver.octets.len() == 16,
        v.sender.octets.len() == 16,
        encode_utf8(v.user_agent).len() <= 255,
        v.version < 70001 ==> !v.relay,
        0 <= m < VersionMessage::wire(v).len() - 46,
    ensures
        spec_decode_extended(
            v.version,
            v.services,
            v.timestamp,
            v.receiver,
            VersionMessage::wire(v).skip(46).take(m),
        ) == Err::<(VersionMessageView, int), CodecError>(CodecError::InsufficientBytesError),
{
    vstd::bytes::lemma_auto_spec_u32_to_from_le_bytes();
    vstd::bytes::lemma_auto_spec_u64_to_from_le_bytes();
    crate::cursor::lemma_u64_be_bytes_round_trip();
    lemma_version_gating(v);
    let w = VersionMessage::wire(v);
    let ua = encode_utf8(v.user_agent);
    let k = ua.len() as int;
    let relay_part: Seq<u8> = if v.version < 70001 {
        Seq::<u8>::empty()
    } else {
        seq![if v.relay { 1u8 } else { 0u8 }]
    };
    let after = NetworkAddress::wire(v.sender) + spec_u64_to_be_bytes(v.nonce) + seq![
        ua.len() as u8,
    ] + ua + spec_i32_to_le_bytes(v.start_height) + relay_part;
    assert(spec_i32_to_le_bytes(v.version).len() == 4);
    assert(spec_u64_to_le_bytes(v.services).len() == 8);
    assert(spec_i64_to_le_bytes(v.timestamp).len() == 8);
    assert(spec_u64_to_le_bytes(v.receiver.services).len() == 8);
    assert(NetworkAddress::wire(v.receiver).len() == 26);
    assert(spec_u64_to_le_bytes(v.sender.services).len() == 8);
    assert(NetworkAddress::wire(v.sender).len() == 26);
    assert(spec_i32_to_le_bytes(v.start_height).len() == 4);
    assert(w.skip(46) =~= after);
    let d = w.skip(46).take(m);
    assert(d =~= after.take(m));
    assert(d.len() == m);
    if m >= 26 {
        let tails = d.skip(26);
        assert(d =~= NetworkAddress::wire(v.sender) + tails);
        crate::messages::address::lemma_address_round_trip(v.sender, tails);
        let d5 = d.skip(26);
        assert(d5.len() == m - 26);
        if m >= 34 {
            assert(d5.take(8) =~= spec_u64_to_be_bytes(v.nonce));
            let d6 = d5.skip(8);
            assert(d6.len() == m - 34);
            if m >= 35 {
                assert(d6[0] == ua.len() as u8);
                let d7 = d6.skip(1);
                assert(d7.len() == m - 35);
                if v.user_agent.len() == 0 {
                    assert(v.user_agent =~= Seq::<char>::empty());
                    assert(k == 0);
                    // only the start height and perhaps the relay byte remain
                    if m >= 39 {
                        assert(v.version >= 70001);
                        assert(m < 40);
                        assert(d7.len() >= 4);
                        assert(d7.skip(4).len() == m - 39 < 1);
                    } else {
                        assert(d7.len() < 4);
                    }
                } else {
                    lemma_encode_utf8_nonempty(v.user_agent);
                    assert(d6[0] as int == k);
                    assert(d6[0] != 0);
                    if m >= 35 + k {
                        assert(d7.take(k) =~= ua);
                        vstd::utf8::encode_utf8_valid_utf8(v.user_agent);
                        vstd::utf8::encode_utf8_decode_utf8(v.user_agent);
                        let dt = d7.skip(k);
                        assert(dt.len() == m - 35 - k);
                        if m >= 39 + k {
                            assert(v.version >= 70001);
                            assert(m < 40 + k);
                            assert(dt.skip(4).len() == m - 39 - k < 1);
                            assert(dt.len() >= 4);
                        } else {
                            assert(dt.len() < 4);
                        }
                    } else {
                        assert(d7.len() < k);
                    }
                }
            }
        }
    }
}

} // verus!
