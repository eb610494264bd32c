use p2p_handshake::messages::ipv4_mapped;
use p2p_handshake::messages::Codec;
use p2p_handshake::messages::CodecError;
use p2p_handshake::messages::NetworkAddress;
use p2p_handshake::messages::Service;
use p2p_handshake::messages::Services;
use p2p_handshake::messages::VersionMessage;

const RAW_VERSION_MSG_LT_106: &[u8] = &[
    // Version
    0x64, 0x00, 0x00, 0x00,
    // Services
    0x01, 0x00, 0x00, 0x00, 0x00, 0x00, 0x00, 0x00,
    // Timestamp
    0xe6, 0x15, 0x10, 0x4d, 0x00, 0x00, 0x00, 0x00,
    // Receiver's network address
        // Services
        0x01, 0x00, 0x00, 0x00, 0x00, 0x00, 0x00, 0x00,
        // IP address
        0x00, 0x00, 0x00, 0x00, 0x00, 0x00, 0x00, 0x00,
        0x00, 0x00, 0xff, 0xff, 0x0a, 0x00, 0x00, 0x01,
        // Port
        0x20, 0x8d,
];

const RAW_VERSION_MSG_LT_70001: &[u8] = &[
    // Version
    0x70, 0x11, 0x01, 0x00,
    // Services
    0x01, 0x00, 0x00, 0x00, 0x00, 0x00, 0x00, 0x00,
    // Timestamp
    0xe6, 0x15, 0x10, 0x4d, 0x00, 0x00, 0x00, 0x00,
    // Receiver's network address
        // Services
        0x01, 0x00, 0x00, 0x00, 0x00, 0x00, 0x00, 0x00,
        // IP address
        0x00, 0x00, 0x00, 0x00, 0x00, 0x00, 0x00, 0x00,
        0x00, 0x00, 0xff, 0xff, 0x0a, 0x00, 0x00, 0x01,
        // Port
        0x20, 0x8d,
    // Sender's network address
        // Services
        0x00, 0x00, 0x00, 0x00, 0x00, 0x00, 0x00, 0x00,
        // IP address
        0x00, 0x00, 0x00, 0x00, 0x00, 0x00, 0x00, 0x00,
        0x00, 0x00, 0x00, 0x00, 0x00, 0x00, 0x00, 0x00,
        // Port
        0x00, 0x00,
    // Nonce
    0x00, 0x00, 0x00, 0x00, 0x00, 0x00, 0x30, 0x39,
    // User agent
    0x0f, 0x2f, 0x53, 0x61, 0x74, 0x6f, 0x73, 0x68,
    0x69, 0x3a, 0x30, 0x2e, 0x37, 0x2e, 0x32, 0x2f,
    // Start height
    0xc0, 0x3e, 0x03, 0x00,
];

const RAW_VERSION_MSG_GE_70001: &[u8] = &[
    // Version
    0x71, 0x11, 0x01, 0x00,
    // Services
    0x01, 0x00, 0x00, 0x00, 0x00, 0x00, 0x00, 0x00,
    // Timestamp
    0xe6, 0x15, 0x10, 0x4d, 0x00, 0x00, 0x00, 0x00,
    // Receiver's network address
        // Services
        0x01, 0x00, 0x00, 0x00, 0x00, 0x00, 0x00, 0x00,
        // IP address
        0x00, 0x00, 0x00, 0x00, 0x00, 0x00, 0x00, 0x00,
        0x00, 0x00, 0xff, 0xff, 0x0a, 0x00, 0x00, 0x01,
        // Port
        0x20, 0x8d,
    // Sender's network address
        // Services
        0x00, 0x00, 0x00, 0x00, 0x00, 0x00, 0x00, 0x00,
        // IP address
        0x00, 0x00, 0x00, 0x00, 0x00, 0x00, 0x00, 0x00,
        0x00, 0x00, 0x00, 0x00, 0x00, 0x00, 0x00, 0x00,
        // Port
        0x00, 0x00,
    // Nonce
    0x00, 0x00, 0x00, 0x00, 0x00, 0x00, 0x30, 0x39,
    // User agent
    0x00,
    // Start height
    0xc0, 0x3e, 0x03, 0x00,
    // Relay
    0x01,
];

const TIMESTAMP: i64 = 1292899814;

fn test_services() -> Services {
    Services::new(&[Service::Network])
}

fn test_receiver() -> NetworkAddress {
    NetworkAddress::new(test_services(), ipv4_mapped([10, 0, 0, 1]), 8333)
}

#[test]
fn encode_version_lt_106() {
    let msg = VersionMessage::from_parts(
        100,
        test_services(),
        TIMESTAMP,
        test_receiver(),
        // below fields are not used during encoding when version is < 106
        NetworkAddress::empty(),
        0,
        String::new(),
        0,
        false,
    );
    assert_eq!(msg.encode(), RAW_VERSION_MSG_LT_106);
}

#[test]
fn encode_version_lt_70001() {
    let msg = VersionMessage::from_parts(
        70000,
        test_services(),
        TIMESTAMP,
        test_receiver(),
        NetworkAddress::empty(),
        12345,
        String::from("/Satoshi:0.7.2/"),
        212672,
        // below field is not used during encoding when version is < 70001
        false,
    );
    assert_eq!(msg.encode(), RAW_VERSION_MSG_LT_70001);
}

#[test]
fn encode_version_ge_70001() {
    let msg = VersionMessage::from_parts(
        70001,
        test_services(),
        TIMESTAMP,
        test_receiver(),
        NetworkAddress::empty(),
        12345,
        String::new(),
        212672,
        true,
    );
    assert_eq!(msg.encode(), RAW_VERSION_MSG_GE_70001);
}

#[test]
fn decode_version_lt_106() {
    let mut data: &[u8] = RAW_VERSION_MSG_LT_106;
    let result = VersionMessage::decode(&mut data);
    assert!(result.is_ok());

    let msg = result.unwrap();
    assert_eq!(msg.version, 100);
    assert_eq!(msg.services, test_services());
    assert_eq!(msg.timestamp(), TIMESTAMP);
    assert_eq!(*msg.receiver(), test_receiver());
}

#[test]
fn decode_version_lt_70001() {
    let mut data: &[u8] = RAW_VERSION_MSG_LT_70001;
    let result = VersionMessage::decode(&mut data);
    assert!(result.is_ok());

    let msg = result.unwrap();
    assert_eq!(msg.version, 70000);
    assert_eq!(msg.services, test_services());
    assert_eq!(msg.timestamp(), TIMESTAMP);
    assert_eq!(*msg.receiver(), test_receiver());
    assert_eq!(msg.nonce(), 12345);
    assert_eq!(msg.user_agent, "/Satoshi:0.7.2/");
    assert_eq!(msg.start_height, 212672);
}

#[test]
fn decode_version_ge_70001() {
    let mut data: &[u8] = RAW_VERSION_MSG_GE_70001;
    let result = VersionMessage::decode(&mut data);
    assert!(result.is_ok());

    let msg = result.unwrap();
    assert_eq!(msg.version, 70001);
    assert_eq!(msg.services, test_services());
    assert_eq!(msg.timestamp(), TIMESTAMP);
    assert_eq!(*msg.receiver(), test_receiver());
    assert_eq!(msg.nonce(), 12345);
    assert_eq!(msg.user_agent, "");
    assert_eq!(msg.start_height, 212672);
    assert_eq!(msg.relay, true);
}

#[test]
fn version_gating_encoded_lengths() {
    // Below 106: exactly the 46 leading bytes, no trailing fields.
    let low = VersionMessage::from_parts(
        105,
        test_services(),
        TIMESTAMP,
        test_receiver(),
        NetworkAddress::empty(),
        0,
        String::new(),
        0,
        false,
    );
    assert_eq!(low.encode().len(), 46);

    // From 106 up to 70000: all fields but the relay byte.
    let mid = VersionMessage::from_parts(
        106,
        test_services(),
        TIMESTAMP,
        test_receiver(),
        NetworkAddress::empty(),
        1,
        String::from("agent"),
        5,
        false,
    );
    assert_eq!(mid.encode().len(), 85 + "agent".len());

    // From 70001 on: the relay byte too; an empty user agent is one zero
    // length byte followed directly by the relay byte.
    let high = VersionMessage::from_parts(
        70001,
        test_services(),
        TIMESTAMP,
        test_receiver(),
        NetworkAddress::empty(),
        1,
        String::new(),
        5,
        true,
    );
    let encoded = high.encode();
    assert_eq!(encoded.len(), 86);
    assert_eq!(encoded[80], 0x00);
    assert_eq!(encoded[85], 0x01);
}

#[test]
fn version_round_trips_on_both_sides_of_thresholds() {
    for version in [105, 106, 70000, 70001] {
        let msg = VersionMessage::from_parts(
            version,
            test_services(),
            TIMESTAMP,
            test_receiver(),
            if version < 106 { NetworkAddress::empty() } else { test_receiver() },
            if version < 106 { 0 } else { 99 },
            if version < 106 { String::new() } else { String::from("/node:1.0/") },
            if version < 106 { 0 } else { 7 },
            version >= 70001,
        );
        let encoded = msg.encode();
        let mut data: &[u8] = &encoded;
        let decoded = VersionMessage::decode(&mut data).unwrap();
        assert!(data.is_empty());
        assert_eq!(decoded.version, msg.version);
        assert_eq!(decoded.services, msg.services);
        assert_eq!(decoded.timestamp(), msg.timestamp());
        assert_eq!(*decoded.receiver(), *msg.receiver());
        assert_eq!(decoded.nonce(), msg.nonce());
        assert_eq!(decoded.user_agent, msg.user_agent);
        assert_eq!(decoded.start_height, msg.start_height);
        assert_eq!(decoded.relay, msg.relay);
    }
}

#[test]
fn version_decode_every_truncation() {
    for raw in [RAW_VERSION_MSG_LT_106, RAW_VERSION_MSG_LT_70001, RAW_VERSION_MSG_GE_70001] {
        for n in 0..raw.len() {
            let mut data: &[u8] = &raw[..n];
            let result = VersionMessage::decode(&mut data);
            assert!(
                matches!(result, Err(CodecError::InsufficientBytesError)),
                "truncation at {} bytes",
                n
            );
            assert_eq!(data.len(), n);
        }
    }
}

#[test]
fn version_decode_invalid_utf8_user_agent() {
    let mut bytes = RAW_VERSION_MSG_LT_70001.to_vec();
    // The first user-agent byte, after the 1-byte length prefix at offset 80.
    bytes[81] = 0xff;
    let mut data: &[u8] = &bytes;
    let result = VersionMessage::decode(&mut data);
    assert!(matches!(result, Err(CodecError::InvalidBytesError)));
}

#[test]
fn version_new_announces_the_node_identity() {
    let config = p2p_handshake::node::NodeConfig {
        version: 70015,
        services: test_services(),
        user_agent: String::from("/node:1.0/"),
        start_height: 42,
        relay: true,
    };
    let msg = VersionMessage::new(ipv4_mapped([127, 0, 0, 1]), 8333, &config);
    assert_eq!(msg.version, 70015);
    assert_eq!(msg.services, test_services());
    assert_eq!(msg.user_agent, "/node:1.0/");
    assert_eq!(msg.start_height, 42);
    assert_eq!(msg.relay, true);
    // The timestamp comes from the clock: seconds since the epoch.
    assert!(msg.timestamp() >= 0);
    let (octets, port) = msg.receiver().address();
    assert_eq!(octets, ipv4_mapped([127, 0, 0, 1]));
    assert_eq!(port, 8333);
}
