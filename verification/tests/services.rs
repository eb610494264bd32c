use p2p_handshake::messages::Codec;
use p2p_handshake::messages::CodecError;
use p2p_handshake::messages::Service;
use p2p_handshake::messages::Services;

const RAW_SERVICES: &[u8] = &[0x0d, 0x00, 0x00, 0x00, 0x00, 0x00, 0x00, 0x00];

#[test]
fn new() {
    let mut raw_services = vec![Service::Network, Service::Witness];
    let mut services = Services::new(&raw_services[..]);

    assert_eq!(services, 0x00_00_00_00_00_00_00_09.into());
    assert_eq!(services.enabled(), raw_services);

    raw_services.push(Service::CompactFilters);
    raw_services.push(Service::NetworkLimited);

    services = Services::new(&raw_services[..]);

    assert_eq!(services, 0x00_00_00_00_00_00_04_49.into());
    assert_eq!(services.enabled(), raw_services);
}

#[test]
fn services_encode() {
    let services = Services::new(&[Service::Network, Service::Bloom, Service::Witness]);
    assert_eq!(services.encode(), RAW_SERVICES);
}

#[test]
fn services_decode() {
    let mut data: &[u8] = RAW_SERVICES;
    let result = Services::decode(&mut data);

    assert!(result.is_ok());
    assert!(data.is_empty());

    let services = result.unwrap();
    let expected_raw_services = [Service::Network, Service::Bloom, Service::Witness];

    assert_eq!(services.enabled(), expected_raw_services);
}

#[test]
fn services_decode_insufficient_bytes() {
    let mut data: &[u8] = &[0x0d, 0x00, 0x00, 0x00];
    let result = Services::decode(&mut data);

    assert_eq!(result, Err(CodecError::InsufficientBytesError));
    assert!(!data.is_empty());
}

#[test]
fn services_unknown_bits_round_trip_opaquely() {
    let services = Services::from_mask(0x8000_0000_0000_0020);
    let encoded = services.encode();
    let mut data: &[u8] = &encoded;
    let decoded = Services::decode(&mut data).unwrap();
    assert_eq!(decoded, services);
    assert!(decoded.enabled().is_empty());
}
