//! The handshake state machine: the decision logic that drives one
//! handshake over one connection.
//!
//! The library owns no socket. The caller connects, writes the frame that
//! [`Node::version_frame`] yields, and then feeds each chunk of received
//! bytes to [`Node::handle_frame`], writing out whatever frame comes back,
//! until the handshake completes or fails.
use vstd::prelude::*;

verus! {

use vstd::utf8::encode_utf8;
use crate::error::ConnectionError;
use crate::messages::address::spec_empty_address;
use crate::messages::calculate_checksum;
use crate::messages::compose;
use crate::messages::spec_checksum;
use crate::messages::spec_frame;
use crate::messages::Codec;
use crate::messages::CodecError;
use crate::messages::Command;
use crate::messages::MessageHeader;
use crate::messages::Network;
use crate::messages::NetworkAddressView;
use crate::messages::PingMessage;
use crate::messages::PongMessage;
use crate::messages::Services;
use crate::messages::VerackMessage;
use crate::messages::VersionMessage;
use crate::messages::VersionMessageView;

/// The abstract value of a node configuration.
#[verifier::ext_equal]
pub struct NodeConfigView {
    pub version: i32,
    pub services: u64,
    pub user_agent: Seq<char>,
    pub start_height: i32,
    pub relay: bool,
}

/// The identity a node announces in its version message: the subset of a
/// peer's version message retained as the handshake's eventual output.
#[derive(Debug)]
pub struct NodeConfig {
    /// Protocol version used by the node
    pub version: i32,
    /// Features to be enabled for the connection
    pub services: Services,
    /// User agent
    pub user_agent: String,
    /// Last block received by the emitting node
    pub start_height: i32,
    /// Whether the remote peer should announce relayed transactions or not
    pub relay: bool,
}

impl View for NodeConfig {
    type V = NodeConfigView;

    open spec fn view(&self) -> NodeConfigView {
        NodeConfigView {
            version: self.version,
            services: self.services@,
            user_agent: self.user_agent@,
            start_height: self.start_height,
            relay: self.relay,
        }
    }
}

impl NodeConfig {
    /// The wire format can carry a user agent of at most 255 UTF-8 bytes.
    pub open spec fn valid(&self) -> bool {
        encode_utf8(self.user_agent@).len() <= 255
    }
}

impl Default for NodeConfig {
    /// The neutral configuration: version zero, no services, an empty user
    /// agent, height zero and no relaying.
    fn default() -> (r: Self)
        ensures
            r@ == (NodeConfigView {
                version: 0i32,
                services: 0u64,
                user_agent: Seq::<char>::empty(),
                start_height: 0i32,
                relay: false,
            }),
            r.valid(),
    {
        let r = Self {
            version: 0,
            services: Services::empty(),
            user_agent: String::new(),
            start_height: 0,
            relay: false,
        };
        proof {
            assert(r@ =~= (NodeConfigView {
                version: 0i32,
                services: 0u64,
                user_agent: Seq::<char>::empty(),
                start_height: 0i32,
                relay: false,
            }));
        }
        r
    }
}

/// What the caller must do next with the connection after one inbound frame
/// was interpreted.
#[derive(Debug)]
pub enum HandshakeAction {
    /// Write these frame bytes to the peer and keep reading.
    Send(Vec<u8>),
    /// The handshake is complete; stop reading.
    Complete,
    /// The frame named an unrecognized network or command; skip it and keep
    /// waiting.
    Ignore,
}

/// The retained identity of a peer's version message, as the handshake's
/// result configuration.
pub open spec fn spec_peer_config(v: VersionMessageView) -> NodeConfigView {
    NodeConfigView {
        version: v.version,
        services: v.services,
        user_agent: v.user_agent,
        start_height: v.start_height,
        relay: v.relay,
    }
}

/// One local node, with the identity it announces. It drives the decision
/// side of a handshake; the caller owns the socket.
pub struct Node {
    /// Configuration set at the application start
    config: NodeConfig,
}

impl Node {
    /// The identity this node announces.
    pub closed spec fn spec_config(&self) -> NodeConfigView {
        self.config@
    }

    /// The node's configuration fits the wire format.
    pub closed spec fn wf(&self) -> bool {
        self.config.valid()
    }

    /// Creates a node that will announce the given identity.
    pub fn new(config: NodeConfig) -> (r: Self)
        ensures
            r.spec_config() == config@,
            r.wf() <==> config.valid(),
    {
        Self { config }
    }

    /// Builds the version frame that opens a handshake: this node's identity,
    /// addressed to the peer at the given address and port. The nonce and the
    /// timestamp are drawn fresh, so only their presence is promised.
    pub fn version_frame(
        &self,
        network: Network,
        receiver_address: [u8; 16],
        receiver_port: u16,
    ) -> (r: Vec<u8>)
        requires
            self.wf(),
        ensures
            exists|m: VersionMessageView|
                #![trigger VersionMessage::wire(m)]
                {
                    &&& r@ == spec_frame(network, Command::Version, VersionMessage::wire(m))
                    &&& m.version == self.spec_config().version
                    &&& m.services == self.spec_config().services
                    &&& m.receiver == (NetworkAddressView {
                        services: self.spec_config().services,
                        octets: receiver_address@,
                        port: receiver_port,
                    })
                    &&& m.sender == spec_empty_address()
                    &&& m.user_agent == self.spec_config().user_agent
                    &&& m.start_height == self.spec_config().start_height
                    &&& m.relay == self.spec_config().relay
                },
    {
        let msg = VersionMessage::new(receiver_address, receiver_port, &self.config);
        proof {
            crate::messages::version::lemma_version_gating(msg@);
        }
        let r = compose(network, Command::Version, &msg);
        proof {
            assert(r@ == spec_frame(network, Command::Version, VersionMessage::wire(msg@)));
        }
        r
    }

    /// Interprets one inbound frame and answers it as the handshake protocol
    /// asks: a version is recorded into `peer` and acknowledged, a verack is
    /// answered with a fresh ping, a ping is echoed by a pong, and a pong
    /// completes the handshake. A frame naming an unrecognized network or
    /// command is skipped; any other malformed frame, and any checksum
    /// mismatch, ends the handshake with `InvalidDataError`.
    pub fn handle_frame(&self, network: Network, peer: &mut NodeConfig, data: &[u8]) -> (r: Result<
        HandshakeAction,
        ConnectionError,
    >)
        ensures
            ({
                match MessageHeader::spec_decode(data@) {
                    Err(CodecError::InvalidBytesError) => r is Ok && r->Ok_0 is Ignore && final(peer)@ == old(peer)@,
                    Err(CodecError::InsufficientBytesError) => r is Err && r->Err_0
                        is InvalidDataError && final(peer)@ == old(peer)@,
                    Ok(hp) => {
                        let rest = data@.skip(hp.1);
                        if hp.0.checksum != spec_checksum(rest) {
                            r is Err && r->Err_0 is InvalidDataError && final(peer)@ == old(peer)@
                        } else {
                            match hp.0.command {
                                Command::Version => match VersionMessage::spec_decode(rest) {
                                    Ok(vp) => final(peer)@ == spec_peer_config(vp.0) && r is Ok && (
                                    r->Ok_0 matches HandshakeAction::Send(d) && d@ == spec_frame(
                                        network,
                                        Command::Verack,
                                        VerackMessage::wire(()),
                                    )),
                                    Err(_) => r is Err && r->Err_0 is InvalidDataError && final(peer)@ == old(peer)@,
                                },
                                Command::Verack => final(peer)@ == old(peer)@ && r is Ok && (exists|
                                    n: u64,
                                |
                                    r->Ok_0 matches HandshakeAction::Send(d) && d@ == spec_frame(
                                        network,
                                        Command::Ping,
                                        #[trigger] PingMessage::wire(n),
                                    )),
                                Command::Ping => match PingMessage::spec_decode(rest) {
                                    Ok(pp) => final(peer)@ == old(peer)@ && r is Ok && (r->Ok_0
                                        matches HandshakeAction::Send(d) && d@ == spec_frame(
                                        network,
                                        Command::Pong,
                                        PongMessage::wire(pp.0),
                                    )),
                                    Err(_) => r is Err && r->Err_0 is InvalidDataError && final(peer)@ == old(peer)@,
                                },
                                Command::Pong => match PongMessage::spec_decode(rest) {
                                    Ok(_) => final(peer)@ == old(peer)@ && r is Ok && r->Ok_0
                                        is Complete,
                                    Err(_) => r is Err && r->Err_0 is InvalidDataError && final(peer)@ == old(peer)@,
                                },
                            }
                        }
                    },
                }
            }),
    {
        let mut cur: &[u8] = data;
        let header = match MessageHeader::decode(&mut cur) {
            Ok(v) => v,
            Err(CodecError::InvalidBytesError) => {
                // An unrecognized network or command: skip the frame and keep
                // waiting rather than abort the handshake.
                return Ok(HandshakeAction::Ignore);
            },
            Err(CodecError::InsufficientBytesError) => {
                return Err(ConnectionError::InvalidDataError);
            },
        };

        let checksum = calculate_checksum(cur);
        if checksum != header.checksum {
            return Err(ConnectionError::InvalidDataError);
        }

        match header.command {
            Command::Version => {
                let msg = match VersionMessage::decode(&mut cur) {
                    Ok(v) => v,
                    Err(_) => {
                        return Err(ConnectionError::InvalidDataError);
                    },
                };
                *peer = msg.into_config();
                let verack_data = compose(network, Command::Verack, &VerackMessage {  });
                Ok(HandshakeAction::Send(verack_data))
            },
            Command::Verack => {
                let ping = PingMessage::new();
                proof {
                    vstd::bytes::lemma_auto_spec_u64_to_from_le_bytes();
                }
                let ping_data = compose(network, Command::Ping, &ping);
                proof {
                    assert(ping_data@ == spec_frame(
                        network,
                        Command::Ping,
                        PingMessage::wire(ping@),
                    ));
                }
                Ok(HandshakeAction::Send(ping_data))
            },
            Command::Ping => {
                let msg = match PingMessage::decode(&mut cur) {
                    Ok(v) => v,
                    Err(_) => {
                        return Err(ConnectionError::InvalidDataError);
                    },
                };
                proof {
                    vstd::bytes::lemma_auto_spec_u64_to_from_le_bytes();
                }
                let pong = PongMessage::new(msg.nonce());
                let pong_data = compose(network, Command::Pong, &pong);
                Ok(HandshakeAction::Send(pong_data))
            },
            Command::Pong => {
                match PongMessage::decode(&mut cur) {
                    Ok(_) => Ok(HandshakeAction::Complete),
                    Err(_) => Err(ConnectionError::InvalidDataError),
                }
            },
        }
    }
}

} // verus!
