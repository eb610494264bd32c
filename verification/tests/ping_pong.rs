use p2p_handshake::messages::Codec;
use p2p_handshake::messages::CodecError;
use p2p_handshake::messages::PingMessage;
use p2p_handshake::messages::PongMessage;

const RAW_PING_MSG: &[u8] = &[0x0f, 0x00, 0x00, 0x00, 0x00, 0x00, 0x00, 0x00];
const RAW_PONG_MSG: &[u8] = &[0x0f, 0x00, 0x00, 0x00, 0x00, 0x00, 0x00, 0x00];

#[test]
fn ping_encode() {
    let msg = PingMessage::with_nonce(15);
    assert_eq!(msg.encode(), RAW_PING_MSG);
}

#[test]
fn ping_decode() {
    let mut data: &[u8] = RAW_PING_MSG;
    let result = PingMessage::decode(&mut data);

    assert!(result.is_ok());
    assert_eq!(result.unwrap().nonce(), 15);
    assert!(data.is_empty());
}

#[test]
fn ping_decode_insufficient_bytes() {
    let mut data: &[u8] = &[0x0f, 0x00, 0x00];
    let result = PingMessage::decode(&mut data);

    assert_eq!(result, Err(CodecError::InsufficientBytesError));
    assert!(!data.is_empty());
}

#[test]
fn ping_new_encodes_its_nonce() {
    let msg = PingMessage::new();
    let nonce = msg.nonce();
    let encoded = msg.encode();
    assert_eq!(encoded.len(), 8);
    assert_eq!(encoded, nonce.to_le_bytes().to_vec());
}

#[test]
fn pong_encode() {
    let msg = PongMessage::new(15);
    assert_eq!(msg.encode(), RAW_PONG_MSG);
}

#[test]
fn pong_decode() {
    let mut data: &[u8] = RAW_PONG_MSG;
    let result = PongMessage::decode(&mut data);

    assert!(result.is_ok());
    assert_eq!(result.unwrap().nonce(), 15);
    assert!(data.is_empty());
}

#[test]
fn pong_decode_insufficient_bytes() {
    let mut data: &[u8] = &[0x0f, 0x00, 0x00];
    let result = PongMessage::decode(&mut data);

    assert_eq!(result, Err(CodecError::InsufficientBytesError));
    assert!(!data.is_empty());
}

#[test]
fn pong_echoes_the_given_nonce() {
    let msg = PongMessage::new(0xdead_beef_0123_4567);
    assert_eq!(msg.nonce(), 0xdead_beef_0123_4567);

    let encoded = msg.encode();
    let mut data: &[u8] = &encoded;
    let decoded = PongMessage::decode(&mut data).unwrap();
    assert_eq!(decoded.nonce(), 0xdead_beef_0123_4567);
}
