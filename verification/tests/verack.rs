use p2p_handshake::messages::Codec;
use p2p_handshake::messages::VerackMessage;

#[test]
fn verack_encode() {
    let msg = VerackMessage {};
    assert!(msg.encode().is_empty());
}

#[test]
fn verack_decode() {
    let mut data: &[u8] = &[];
    let mut result = VerackMessage::decode(&mut data);

    assert!(result.is_ok());
    assert!(data.is_empty());

    data = &[0xff, 0x01, 0x00];
    result = VerackMessage::decode(&mut data);

    assert!(result.is_ok());
    assert!(!data.is_empty());
}
