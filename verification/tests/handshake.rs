use p2p_handshake::error::ConnectionError;
use p2p_handshake::messages::calculate_checksum;
use p2p_handshake::messages::compose;
use p2p_handshake::messages::ipv4_mapped;
use p2p_handshake::messages::Codec;
use p2p_handshake::messages::Command;
use p2p_handshake::messages::MessageHeader;
use p2p_handshake::messages::Network;
use p2p_handshake::messages::NetworkAddress;
use p2p_handshake::messages::PingMessage;
use p2p_handshake::messages::PongMessage;
use p2p_handshake::messages::Service;
use p2p_handshake::messages::Services;
use p2p_handshake::messages::VerackMessage;
use p2p_handshake::messages::VersionMessage;
use p2p_handshake::node::HandshakeAction;
use p2p_handshake::node::Node;
use p2p_handshake::node::NodeConfig;

fn local_node() -> Node {
    Node::new(NodeConfig {
        version: 70015,
        services: Services::new(&[Service::Network]),
        user_agent: String::from("test_node"),
        start_height: 10,
        relay: false,
    })
}

fn peer_version_frame() -> Vec<u8> {
    let msg = VersionMessage::from_parts(
        70015,
        Services::new(&[Service::Network, Service::Witness]),
        1292899814,
        NetworkAddress::new(Services::empty(), ipv4_mapped([127, 0, 0, 1]), 8333),
        NetworkAddress::empty(),
        424242,
        String::from("/peer:0.1/"),
        812000,
        true,
    );
    compose(Network::Main, Command::Version, &msg)
}

/// A peer that answers with version, verack, ping and pong in order
/// completes the handshake, and the peer configuration the handshake
/// returns matches the fields of the version message the peer sent.
#[test]
fn handshake_against_scripted_peer() {
    let node = local_node();
    let mut peer = NodeConfig::default();

    // The frame this side would open with: a well-formed version frame.
    let opening = node.version_frame(Network::Main, ipv4_mapped([127, 0, 0, 1]), 8333);
    let mut data: &[u8] = &opening;
    let header = MessageHeader::decode(&mut data).unwrap();
    assert_eq!(header.command, Command::Version);
    assert_eq!(header.checksum, calculate_checksum(data));

    // Peer sends its version: we record it and answer with a verack.
    let action = node
        .handle_frame(Network::Main, &mut peer, &peer_version_frame())
        .unwrap();
    match action {
        HandshakeAction::Send(frame) => {
            assert_eq!(frame, compose(Network::Main, Command::Verack, &VerackMessage {}));
        }
        _ => panic!("expected a verack to be sent"),
    }
    assert_eq!(peer.version, 70015);
    assert_eq!(peer.services, Services::new(&[Service::Network, Service::Witness]));
    assert_eq!(peer.user_agent, "/peer:0.1/");
    assert_eq!(peer.start_height, 812000);
    assert_eq!(peer.relay, true);

    // Peer acknowledges: we probe liveness with a fresh ping.
    let verack = compose(Network::Main, Command::Verack, &VerackMessage {});
    let action = node.handle_frame(Network::Main, &mut peer, &verack).unwrap();
    let our_ping_nonce = match action {
        HandshakeAction::Send(frame) => {
            let mut data: &[u8] = &frame;
            let header = MessageHeader::decode(&mut data).unwrap();
            assert_eq!(header.command, Command::Ping);
            PingMessage::decode(&mut data).unwrap().nonce()
        }
        _ => panic!("expected a ping to be sent"),
    };

    // Peer pings us: we echo its nonce in a pong.
    let ping = compose(Network::Main, Command::Ping, &PingMessage::with_nonce(5150));
    let action = node.handle_frame(Network::Main, &mut peer, &ping).unwrap();
    match action {
        HandshakeAction::Send(frame) => {
            assert_eq!(
                frame,
                compose(Network::Main, Command::Pong, &PongMessage::new(5150))
            );
        }
        _ => panic!("expected a pong to be sent"),
    }

    // Peer answers our ping: the handshake is complete.
    let pong = compose(
        Network::Main,
        Command::Pong,
        &PongMessage::new(our_ping_nonce),
    );
    let action = node.handle_frame(Network::Main, &mut peer, &pong).unwrap();
    assert!(matches!(action, HandshakeAction::Complete));
}

#[test]
fn handshake_rejects_checksum_mismatch() {
    let node = local_node();
    let mut peer = NodeConfig::default();

    let mut frame = compose(Network::Main, Command::Ping, &PingMessage::with_nonce(1));
    let last = frame.len() - 1;
    frame[last] ^= 0xff;
    let result = node.handle_frame(Network::Main, &mut peer, &frame);
    assert!(matches!(result, Err(ConnectionError::InvalidDataError)));
}

#[test]
fn handshake_skips_unrecognized_network() {
    let node = local_node();
    let mut peer = NodeConfig::default();

    let mut frame = compose(Network::Main, Command::Ping, &PingMessage::with_nonce(1));
    frame[0] = 0x00;
    let result = node.handle_frame(Network::Main, &mut peer, &frame);
    assert!(matches!(result, Ok(HandshakeAction::Ignore)));
}

#[test]
fn handshake_rejects_truncated_header() {
    let node = local_node();
    let mut peer = NodeConfig::default();

    let frame = compose(Network::Main, Command::Ping, &PingMessage::with_nonce(1));
    let result = node.handle_frame(Network::Main, &mut peer, &frame[..10]);
    assert!(matches!(result, Err(ConnectionError::InvalidDataError)));
}

#[test]
fn handshake_rejects_truncated_payload() {
    let node = local_node();
    let mut peer = NodeConfig::default();

    // A version frame whose payload is cut short: the checksum no longer
    // matches, so the frame is rejected.
    let frame = peer_version_frame();
    let result = node.handle_frame(Network::Main, &mut peer, &frame[..frame.len() - 4]);
    assert!(matches!(result, Err(ConnectionError::InvalidDataError)));
    assert_eq!(peer.version, 0);
}
