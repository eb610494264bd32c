use p2p_handshake::messages::ipv4_mapped;
use p2p_handshake::messages::Codec;
use p2p_handshake::messages::CodecError;
use p2p_handshake::messages::NetworkAddress;
use p2p_handshake::messages::Service;
use p2p_handshake::messages::Services;

const RAW_NET_ADDRESS: &[u8] = &[
    // Services
    0x05, 0x00, 0x00, 0x00, 0x00, 0x00, 0x00, 0x00,
    // IP address
    0x00, 0x00, 0x00, 0x00, 0x00, 0x00, 0x00, 0x00, 0x00, 0x00, 0xff, 0xff, 0x0a,
    0x00, 0x00, 0x01,
    // Port
    0x20, 0x8d,
];

#[test]
fn address_encode() {
    let services = Services::new(&[Service::Network, Service::Bloom]);
    let net_address = NetworkAddress::new(services, ipv4_mapped([10, 0, 0, 1]), 8333);
    assert_eq!(net_address.encode(), RAW_NET_ADDRESS);
}

#[test]
fn address_decode() {
    let mut data: &[u8] = RAW_NET_ADDRESS;
    let result = NetworkAddress::decode(&mut data);
    assert!(result.is_ok());

    let net_address = result.unwrap();
    assert_eq!(
        net_address.services.enabled(),
        [Service::Network, Service::Bloom]
    );

    let (octets, port) = net_address.address();
    assert_eq!(octets, ipv4_mapped([10, 0, 0, 1]));
    assert_eq!(port, 8333);
    assert!(data.is_empty());
}

#[test]
fn address_decode_insufficient_bytes() {
    let mut data: &[u8] = &[0x0f, 0x00, 0x00];
    let result = NetworkAddress::decode(&mut data);

    assert_eq!(result, Err(CodecError::InsufficientBytesError));
    assert!(!data.is_empty());
}

#[test]
fn address_empty_is_all_zero() {
    let empty = NetworkAddress::empty();
    assert_eq!(empty.encode(), vec![0u8; 26]);
}

#[test]
fn address_round_trips_ipv6() {
    let octets: [u8; 16] = [1, 2, 3, 4, 5, 6, 7, 8, 9, 10, 11, 12, 13, 14, 15, 16];
    let address = NetworkAddress::new(Services::empty(), octets, 48333);
    let encoded = address.encode();
    assert_eq!(encoded.len(), 26);

    let mut data: &[u8] = &encoded;
    let decoded = NetworkAddress::decode(&mut data).unwrap();
    assert_eq!(decoded, address);
    assert!(data.is_empty());
}
