use bitcoin_p2p_handshake::messages::codec::{CodecError, Decode, Encode};
use bitcoin_p2p_handshake::messages::types::version::{
    IpAddress, NetworkAddress, Services, SocketAddress, VersionMessage,
};
use bitcoin_p2p_handshake::messages::CommandName;

fn mapped(octets: [u8; 4]) -> [u8; 16] {
    [0, 0, 0, 0, 0, 0, 0, 0, 0, 0, 255, 255, octets[0], octets[1], octets[2], octets[3]]
}

fn reference_version() -> VersionMessage {
    VersionMessage {
        version: 60002,
        services: Services::from_bits_truncate(Services::NODE_NETWORK),
        timestamp: 1355854353,
        receiving_node: NetworkAddress {
            services: Services::from_bits_truncate(Services::NODE_NETWORK),
            ip_address: [0, 0, 0, 0, 0, 0, 0, 0, 0, 0, 255, 255, 0, 0, 0, 0],
            port: 0,
        },
        transmitting_node: NetworkAddress {
            services: Services::from_bits_truncate(Services::NODE_NETWORK),
            ip_address: [0, 0, 0, 0, 0, 0, 0, 0, 0, 0, 255, 255, 0, 0, 0, 0],
            port: 0,
        },
        nonce: 0x6517E68C5DB32E3B as u64,
        user_agent: "/Satoshi:0.7.2/".to_string(),
        start_height: 212672,
        relay: false,
    }
}

#[test]
fn version_encode_should_work() {
    let verack_message = reference_version();

    assert_eq!(
        verack_message.encode().unwrap(),
        hex::decode(
            "62EA0000010000000000000011B2D05000000000010000000000000000000000000000000000FFFF000000000000010000000000000000000000000000000000FFFF0000000000003B2EB35D8CE617650F2F5361746F7368693A302E372E322FC03E030000"
        ).unwrap()
    )
}

#[test]
fn version_decode_should_work() {
    let hex_string = "721101000100000000000000bc8f5e5400000000010000000000000000000000000000000000ffffc61b6409208d010000000000000000000000000000000000ffffcb0071c0208d128035cbc97953f80f2f5361746f7368693a302e392e332fcf05050001";
    let bytes = hex::decode(hex_string).unwrap();

    assert_eq!(
        VersionMessage::decode(&mut bytes.as_slice()).unwrap(),
        VersionMessage {
            version: 70002,
            services: Services::from_bits_truncate(Services::NODE_NETWORK),
            timestamp: 1415483324,
            receiving_node: NetworkAddress {
                services: Services::from_bits_truncate(Services::NODE_NETWORK),
                ip_address: [0, 0, 0, 0, 0, 0, 0, 0, 0, 0, 255, 255, 198, 27, 100, 9],
                port: 8333,
            },
            transmitting_node: NetworkAddress {
                services: Services::from_bits_truncate(Services::NODE_NETWORK),
                ip_address: [0, 0, 0, 0, 0, 0, 0, 0, 0, 0, 255, 255, 203, 0, 113, 192],
                port: 8333,
            },
            nonce: 0xf85379c9cb358012,
            user_agent: "/Satoshi:0.9.3/".to_string(),
            start_height: 329167,
            relay: true,
        }
    );
}

#[test]
fn version_round_trip() {
    let message = VersionMessage {
        version: -7,
        services: Services::from_bits_truncate(Services::NODE_WITNESS | Services::NODE_BLOOM),
        timestamp: -1,
        receiving_node: NetworkAddress {
            services: Services::empty(),
            ip_address: [1, 2, 3, 4, 5, 6, 7, 8, 9, 10, 11, 12, 13, 14, 15, 16],
            port: 65535,
        },
        transmitting_node: NetworkAddress {
            services: Services::from_bits_truncate(Services::NODE_NETWORK_LIMITED),
            ip_address: mapped([127, 0, 0, 1]),
            port: 18333,
        },
        nonce: u64::MAX,
        user_agent: "héllo ✓".to_string(),
        start_height: i32::MIN,
        relay: true,
    };
    let bytes = message.encode().unwrap();
    assert_eq!(bytes.len(), 86 + "héllo ✓".len());
    let mut cursor = bytes.as_slice();
    assert_eq!(VersionMessage::decode(&mut cursor).unwrap(), message);
    assert!(cursor.is_empty());
}

#[test]
fn version_decode_leaves_following_bytes() {
    let mut bytes = reference_version().encode().unwrap();
    bytes.extend_from_slice(&[9, 8, 7]);
    let mut cursor = bytes.as_slice();
    assert_eq!(VersionMessage::decode(&mut cursor).unwrap(), reference_version());
    assert_eq!(cursor, &[9, 8, 7]);
}

#[test]
fn version_encoded_size() {
    assert_eq!(reference_version().encode().unwrap().len(), 101);
}

#[test]
fn version_user_agent_too_long_is_refused() {
    let mut message = reference_version();
    message.user_agent = "a".repeat(256);
    assert_eq!(message.encode(), Err(CodecError::UserAgentTooLong));
    message.user_agent = "a".repeat(255);
    assert_eq!(message.encode().unwrap().len(), 86 + 255);
}

#[test]
fn version_decode_truncated() {
    let bytes = reference_version().encode().unwrap();
    for n in [0usize, 1, 50, 80, 81, 95, 100] {
        assert_eq!(
            VersionMessage::decode(&mut &bytes[..n]),
            Err(CodecError::UnexpectedEnd),
            "prefix of {n} bytes"
        );
    }
}

#[test]
fn version_decode_rejects_bad_relay_byte() {
    let mut bytes = reference_version().encode().unwrap();
    let last = bytes.len() - 1;
    bytes[last] = 2;
    assert_eq!(
        VersionMessage::decode(&mut bytes.as_slice()),
        Err(CodecError::InvalidEncoding)
    );
}

#[test]
fn version_decode_rejects_invalid_utf8() {
    let mut bytes = reference_version().encode().unwrap();
    bytes[81] = 0xff;
    assert_eq!(
        VersionMessage::decode(&mut bytes.as_slice()),
        Err(CodecError::InvalidEncoding)
    );
}

#[test]
fn version_decode_drops_unknown_services() {
    let mut bytes = reference_version().encode().unwrap();
    bytes[4] = 0xff;
    bytes[11] = 0x80;
    let decoded = VersionMessage::decode(&mut bytes.as_slice()).unwrap();
    assert_eq!(decoded.services.bits(), 0xff & Services::ALL);
}

#[test]
fn network_address_from_ipv4_is_mapped() {
    let address = NetworkAddress::new(
        Services::from_bits_truncate(Services::NODE_NETWORK),
        SocketAddress { ip: IpAddress::V4([192, 168, 1, 2]), port: 8333 },
    );
    assert_eq!(address.ip_address, mapped([192, 168, 1, 2]));
    assert_eq!(address.port, 8333);
    let v6 = [0x20, 0x01, 0x0d, 0xb8, 0, 0, 0, 0, 0, 0, 0, 0, 0, 0, 0, 1];
    let address = NetworkAddress::new(
        Services::empty(),
        SocketAddress { ip: IpAddress::V6(v6), port: 1 },
    );
    assert_eq!(address.ip_address, v6);
}

#[test]
fn network_address_port_is_big_endian() {
    let address = NetworkAddress {
        services: Services::from_bits_truncate(Services::NODE_NETWORK),
        ip_address: mapped([1, 2, 3, 4]),
        port: 0x208d,
    };
    let bytes = address.encode().unwrap();
    assert_eq!(bytes.len(), 26);
    assert_eq!(&bytes[..8], &[1, 0, 0, 0, 0, 0, 0, 0]);
    assert_eq!(&bytes[24..], &[0x20, 0x8d]);
    assert_eq!(NetworkAddress::decode(&mut bytes.as_slice()).unwrap(), address);
}

#[test]
fn version_message_new_fills_fields() {
    let message = VersionMessage::new(
        70015,
        Services::from_bits_truncate(Services::NODE_NETWORK),
        1700000000,
        Services::from_bits_truncate(Services::NODE_WITNESS),
        SocketAddress { ip: IpAddress::V4([10, 0, 0, 1]), port: 8333 },
        SocketAddress { ip: IpAddress::V4([10, 0, 0, 2]), port: 50000 },
        Services::from_bits_truncate(Services::NODE_NETWORK),
        42,
        String::new(),
        0,
        false,
    );
    assert_eq!(message.receiving_node.ip_address, mapped([10, 0, 0, 1]));
    assert_eq!(message.receiving_node.services.bits(), Services::NODE_WITNESS);
    assert_eq!(message.transmitting_node.ip_address, mapped([10, 0, 0, 2]));
    assert_eq!(message.transmitting_node.port, 50000);
    assert_eq!(message.nonce, 42);
}

#[test]
fn version_command_name_is_padded() {
    assert_eq!(&VersionMessage::command_name(), b"version\x00\x00\x00\x00\x00");
}

#[test]
fn services_truncate_unknown_bits() {
    assert_eq!(Services::from_bits_truncate(u64::MAX).bits(), 1119);
    assert_eq!(Services::from_bits_truncate(32 | 1).bits(), 1);
    assert_eq!(Services::empty().bits(), 0);
}
