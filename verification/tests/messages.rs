use p2p_handshake::messages::calculate_checksum;
use p2p_handshake::messages::compose;
use p2p_handshake::messages::Codec;
use p2p_handshake::messages::CodecError;
use p2p_handshake::messages::Command;
use p2p_handshake::messages::MessageHeader;
use p2p_handshake::messages::Network;
use p2p_handshake::messages::PingMessage;

const RAW_HEADER: &[u8] = &[
    // Magic bytes
    0xf9, 0xbe, 0xb4, 0xd9,
    // Version command
    0x76, 0x65, 0x72, 0x73, 0x69, 0x6f, 0x6e, 0x00, 0x00, 0x00, 0x00, 0x00,
    // Payload length
    0x64, 0x00, 0x00, 0x00,
    // Payload checksum
    0x35, 0x8d, 0x49, 0x32,
];

#[test]
fn messages_encode() {
    let header = MessageHeader {
        network: Network::Main,
        command: Command::Version,
        length: 100,
        checksum: 0x32498d35,
    };
    assert_eq!(header.encode(), RAW_HEADER);
}

#[test]
fn messages_decode() {
    let mut data: &[u8] = RAW_HEADER;
    let result = MessageHeader::decode(&mut data);
    assert!(result.is_ok());

    let header = result.unwrap();
    assert_eq!(header.network, Network::Main);
    assert_eq!(header.command, Command::Version);
    assert_eq!(header.length, 100);
    assert_eq!(header.checksum, 0x32498d35);
}

#[test]
fn checksum() {
    let checksum = calculate_checksum(&[]);
    assert_eq!(checksum, 0xe2e0f65d);
}

#[test]
fn checksum_depends_on_payload_alone() {
    let a = calculate_checksum(&[1, 2, 3]);
    let b = calculate_checksum(&[1, 2, 3]);
    let c = calculate_checksum(&[1, 2, 4]);
    assert_eq!(a, b);
    assert_ne!(a, c);
}

#[test]
fn header_decode_unknown_magic() {
    let mut bytes = RAW_HEADER.to_vec();
    bytes[0] = 0x00;
    let mut data: &[u8] = &bytes;
    assert_eq!(
        MessageHeader::decode(&mut data),
        Err(CodecError::InvalidBytesError)
    );
}

#[test]
fn header_decode_unknown_command() {
    let mut bytes = RAW_HEADER.to_vec();
    bytes[4] = b'x';
    let mut data: &[u8] = &bytes;
    assert_eq!(
        MessageHeader::decode(&mut data),
        Err(CodecError::InvalidBytesError)
    );
}

#[test]
fn header_decode_every_truncation() {
    for n in 0..RAW_HEADER.len() {
        let mut data: &[u8] = &RAW_HEADER[..n];
        assert_eq!(
            MessageHeader::decode(&mut data),
            Err(CodecError::InsufficientBytesError)
        );
        assert_eq!(data.len(), n);
    }
}

#[test]
fn compose_header_matches_payload() {
    let ping = PingMessage::with_nonce(7);
    let frame = compose(Network::Main, Command::Ping, &ping);
    assert_eq!(frame.len(), 24 + 8);

    let mut data: &[u8] = &frame;
    let header = MessageHeader::decode(&mut data).unwrap();
    assert_eq!(header.network, Network::Main);
    assert_eq!(header.command, Command::Ping);
    assert_eq!(header.length as usize, data.len());
    assert_eq!(header.checksum, calculate_checksum(data));
}

#[test]
fn command_tags_round_trip() {
    for command in [Command::Version, Command::Verack, Command::Ping, Command::Pong] {
        let tag = command.to_bytes();
        assert_eq!(Command::from_tag(&tag), Some(command));
    }
    assert_eq!(Command::from_tag(b"nonsense\0\0\0\0"), None);
}

#[test]
fn network_magic_round_trip() {
    for network in [
        Network::Main,
        Network::Testnet,
        Network::Testnet3,
        Network::Signet,
        Network::Namecoin,
    ] {
        assert_eq!(Network::from_magic(network.magic()), Some(network));
    }
    assert_eq!(Network::from_magic(0xdeadbeef), None);
}
