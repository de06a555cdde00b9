use bitcoin_p2p_handshake::messages::codec::{CodecError, Decode, Encode};
use bitcoin_p2p_handshake::messages::types::verack::VerackMessage;
use bitcoin_p2p_handshake::messages::CommandName;

#[test]
fn verack_encode_should_work() {
    let verack_message = VerackMessage;
    assert_eq!(verack_message.encode().unwrap(), vec![])
}

#[test]
fn verack_decode_should_work() {
    assert_eq!(
        VerackMessage::decode(&mut vec![].as_slice()).unwrap(),
        VerackMessage
    );
}

#[test]
fn verack_decode_rejects_any_byte() {
    assert_eq!(
        VerackMessage::decode(&mut vec![0u8].as_slice()),
        Err(CodecError::InvalidEncoding)
    );
    assert_eq!(
        VerackMessage::decode(&mut vec![1u8, 2, 3].as_slice()),
        Err(CodecError::InvalidEncoding)
    );
}

#[test]
fn verack_command_name_is_padded() {
    assert_eq!(&VerackMessage::command_name(), b"verack\x00\x00\x00\x00\x00\x00");
}
