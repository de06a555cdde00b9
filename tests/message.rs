use bitcoin_p2p_handshake::constants::MAX_PAYLOAD_SIZE;
use bitcoin_p2p_handshake::crypto::checksum;
use bitcoin_p2p_handshake::messages::codec::{CodecError, Decode, Encode};
use bitcoin_p2p_handshake::messages::types::verack::VerackMessage;
use bitcoin_p2p_handshake::messages::types::version::{NetworkAddress, Services, VersionMessage};
use bitcoin_p2p_handshake::messages::{Chain, Message};

fn version() -> VersionMessage {
    let address = NetworkAddress {
        services: Services::from_bits_truncate(Services::NODE_NETWORK),
        ip_address: [0, 0, 0, 0, 0, 0, 0, 0, 0, 0, 255, 255, 1, 2, 3, 4],
        port: 8333,
    };
    VersionMessage {
        version: 70015,
        services: Services::from_bits_truncate(Services::NODE_NETWORK),
        timestamp: 1700000000,
        receiving_node: address,
        transmitting_node: address,
        nonce: 7,
        user_agent: String::new(),
        start_height: 0,
        relay: false,
    }
}

fn version_frame(chain: Chain) -> Vec<u8> {
    Message::new(chain, version()).encode().unwrap()
}

#[test]
fn checksum_of_empty_payload() {
    assert_eq!(checksum(&[]), [0x5d, 0xf6, 0xe0, 0xe2]);
}

#[test]
fn checksum_is_deterministic() {
    let payload = b"hello".to_vec();
    assert_eq!(checksum(&payload), checksum(&payload.clone()));
    assert_eq!(checksum(&payload).len(), 4);
    assert_ne!(checksum(&payload), checksum(b"hellp"));
}

#[test]
fn verack_frame_on_mainnet() {
    let frame = Message::new(Chain::Mainnet, VerackMessage).encode().unwrap();
    assert_eq!(
        frame,
        hex::decode("f9beb4d976657261636b000000000000000000005df6e0e2").unwrap()
    );
}

#[test]
fn chain_magic_values() {
    assert_eq!(Chain::Mainnet.encode().unwrap(), vec![0xf9, 0xbe, 0xb4, 0xd9]);
    assert_eq!(Chain::Regnet.encode().unwrap(), vec![0xfa, 0xbf, 0xb5, 0xda]);
    assert_eq!(Chain::Testnet3.encode().unwrap(), vec![0x0b, 0x11, 0x09, 0x07]);
    assert_eq!(Chain::Signet.encode().unwrap(), vec![0x0a, 0x0c, 0xcf, 0x40]);
    assert_eq!(Chain::Namecoin.encode().unwrap(), vec![0xf9, 0xbe, 0xb4, 0xfe]);
    for chain in [Chain::Mainnet, Chain::Regnet, Chain::Testnet3, Chain::Signet, Chain::Namecoin] {
        let bytes = chain.encode().unwrap();
        assert_eq!(Chain::decode(&mut bytes.as_slice()).unwrap(), chain);
    }
    assert_eq!(
        Chain::decode(&mut [0xf9u8, 0xbe, 0xb4].as_slice()),
        Err(CodecError::UnexpectedEnd)
    );
}

#[test]
fn message_round_trip() {
    for chain in [Chain::Mainnet, Chain::Regnet, Chain::Testnet3, Chain::Signet, Chain::Namecoin] {
        let frame = version_frame(chain);
        assert_eq!(frame.len(), 24 + 86);
        let decoded = Message::<VersionMessage>::decode(&mut frame.as_slice()).unwrap();
        assert_eq!(decoded.chain, chain);
        assert_eq!(decoded.message, version());

        let frame = Message::new(chain, VerackMessage).encode().unwrap();
        let decoded = Message::<VerackMessage>::decode(&mut frame.as_slice()).unwrap();
        assert_eq!(decoded.chain, chain);
        assert_eq!(decoded.message, VerackMessage);
    }
}

#[test]
fn message_decode_consumes_one_frame() {
    let mut bytes = version_frame(Chain::Signet);
    let verack = Message::new(Chain::Signet, VerackMessage).encode().unwrap();
    bytes.extend_from_slice(&verack);
    let mut cursor = bytes.as_slice();
    Message::<VersionMessage>::decode(&mut cursor).unwrap();
    assert_eq!(cursor, verack.as_slice());
}

#[test]
fn flipped_payload_byte_fails_checksum() {
    let frame = version_frame(Chain::Mainnet);
    for i in 24..frame.len() {
        let mut broken = frame.clone();
        broken[i] ^= 0x01;
        assert!(matches!(
            Message::<VersionMessage>::decode(&mut broken.as_slice()),
            Err(CodecError::ChecksumInvalid)
        ));
    }
}

#[test]
fn unknown_magic_is_rejected() {
    let mut frame = version_frame(Chain::Mainnet);
    frame[3] = 0x00;
    assert!(matches!(
        Message::<VersionMessage>::decode(&mut frame.as_slice()),
        Err(CodecError::UnknownMagicValue)
    ));
    assert!(matches!(
        Message::<VerackMessage>::decode(&mut frame.as_slice()),
        Err(CodecError::UnknownMagicValue)
    ));
}

#[test]
fn command_mismatch_is_rejected() {
    let verack = Message::new(Chain::Mainnet, VerackMessage).encode().unwrap();
    assert!(matches!(
        Message::<VersionMessage>::decode(&mut verack.as_slice()),
        Err(CodecError::CommandNameUnknown)
    ));
    let version = version_frame(Chain::Mainnet);
    assert!(matches!(
        Message::<VerackMessage>::decode(&mut version.as_slice()),
        Err(CodecError::CommandNameUnknown)
    ));
}

#[test]
fn oversized_length_is_rejected_from_the_header() {
    let mut header = version_frame(Chain::Mainnet)[..24].to_vec();
    header[16..20].copy_from_slice(&(MAX_PAYLOAD_SIZE + 1).to_le_bytes());
    assert!(matches!(
        Message::<VersionMessage>::decode(&mut header.as_slice()),
        Err(CodecError::PayloadTooBig)
    ));
    header[16..20].copy_from_slice(&MAX_PAYLOAD_SIZE.to_le_bytes());
    assert!(matches!(
        Message::<VersionMessage>::decode(&mut header.as_slice()),
        Err(CodecError::UnexpectedEnd)
    ));
}

#[test]
fn message_encode_passes_payload_error_on() {
    let mut message = version();
    message.user_agent = "a".repeat(300);
    assert!(matches!(
        Message::new(Chain::Mainnet, message).encode(),
        Err(CodecError::UserAgentTooLong)
    ));
}

#[test]
fn verack_frame_with_payload_is_rejected() {
    let payload = [0u8];
    let mut frame = vec![0xf9, 0xbe, 0xb4, 0xd9];
    frame.extend_from_slice(b"verack\x00\x00\x00\x00\x00\x00");
    frame.extend_from_slice(&1u32.to_le_bytes());
    frame.extend_from_slice(&checksum(&payload));
    frame.extend_from_slice(&payload);
    assert!(matches!(
        Message::<VerackMessage>::decode(&mut frame.as_slice()),
        Err(CodecError::InvalidEncoding)
    ));
}
