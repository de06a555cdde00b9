use vstd::prelude::*;
use vstd::utf8::{decode_utf8, encode_utf8, valid_utf8};
use crate::messages::codec::{Codec, CodecError, Decode, Encode};
use crate::messages::CommandName;
use crate::wire::{
    lemma_u16_be, lemma_u32_le, lemma_u64_le, put_bytes, put_u16_be, put_u32_le, put_u64_le,
    read_u16_be, read_u32_le, read_u64_le, read_u8, take_bytes, u16_be, u16_from_be, u32_from_le,
    u32_le, u64_from_le, u64_le,
};

verus! {

/// Services supported by a node (encoded as a bitfield)
///
/// Only the flags named below are kept: unknown bits read from the wire are dropped.
#[derive(Debug, Clone, Copy, PartialEq, Eq, Structural)]
pub struct Services {
    pub bits: u64,
}

impl View for Services {
    type V = u64;

    open spec fn view(&self) -> u64 {
        self.bits
    }
}

impl Services {
    /// This node is not a full node. It may not be able to provide any data except for
    /// the transactions it originates.
    pub const UNNAMED: u64 = 0;

    /// This node can be asked for full blocks instead of just headers.
    pub const NODE_NETWORK: u64 = 1;

    /// This is a full node capable of responding to the getutxo protocol request.
    pub const NODE_GETUTXO: u64 = 2;

    /// This is a full node capable and willing to handle bloom-filtered connections.
    pub const NODE_BLOOM: u64 = 4;

    /// This is a full node that can be asked for blocks and transactions including
    /// witness data.
    pub const NODE_WITNESS: u64 = 8;

    /// This is a full node that supports Xtreme Thinblocks.
    pub const NODE_XTHIN: u64 = 16;

    /// This node serves compact block filters (BIP 157).
    pub const NODE_COMPACT_FILTERS: u64 = 64;

    /// The same as NODE_NETWORK, but the node has at least the last 288 blocks.
    pub const NODE_NETWORK_LIMITED: u64 = 1024;

    /// The union of every flag above.
    pub const ALL: u64 = 1119;

    /// Whether every bit set in `self` is a known flag.
    pub open spec fn well_formed(&self) -> bool {
        self.bits & Self::ALL == self.bits
    }

    /// The set of flags among `bits`; the bits that name no known flag are dropped.
    pub fn from_bits_truncate(bits: u64) -> (r: Services)
        ensures
            r@ == bits & Self::ALL,
            r.well_formed(),
    {
        let r = Services { bits: bits & Self::ALL };
        assert((bits & 1119u64) & 1119u64 == bits & 1119u64) by (bit_vector);
        r
    }

    /// The empty set of flags.
    pub fn empty() -> (r: Services)
        ensures
            r@ == 0,
            r.well_formed(),
    {
        assert(0u64 & 1119u64 == 0u64) by (bit_vector);
        Services { bits: 0 }
    }

    /// The raw bitfield.
    pub fn bits(&self) -> (r: u64)
        ensures
            r == self@,
    {
        self.bits
    }
}

/// An IP address, version 4 or 6, as its octets in network order
#[derive(Debug, Clone, Copy, PartialEq, Eq)]
pub enum IpAddress {
    V4([u8; 4]),
    V6([u8; 16]),
}

/// An IP address with a port, as a connected socket reports it
#[derive(Debug, Clone, Copy, PartialEq, Eq)]
pub struct SocketAddress {
    pub ip: IpAddress,
    pub port: u16,
}

/// The IPv6 form of an address: an IPv4 address is mapped into `::ffff:a.b.c.d`.
pub open spec fn ipv6_octets(ip: IpAddress) -> Seq<u8> {
    match ip {
        IpAddress::V4(a) => seq![0u8, 0u8, 0u8, 0u8, 0u8, 0u8, 0u8, 0u8, 0u8, 0u8, 0xffu8, 0xffu8]
            + a@,
        IpAddress::V6(a) => a@,
    }
}

/// The model of a network address: services bitfield, IPv6 octets and port
pub struct NetworkAddressModel {
    pub services: u64,
    pub ip_address: Seq<u8>,
    pub port: u16,
}

/// Network address of a node
#[derive(Debug, Clone, Copy, PartialEq, Eq)]
pub struct NetworkAddress {
    /// Services supported by the node encoded as a bitfield
    pub services: Services,
    /// IPv6 address of the node, in network byte order
    pub ip_address: [u8; 16],
    /// Port number of the node
    pub port: u16,
}

impl View for NetworkAddress {
    type V = NetworkAddressModel;

    open spec fn view(&self) -> NetworkAddressModel {
        NetworkAddressModel {
            services: self.services@,
            ip_address: self.ip_address@,
            port: self.port,
        }
    }
}

/// The 26 bytes of a network address: services (little-endian), IPv6 octets, port
/// (big-endian).
pub open spec fn address_bytes(a: NetworkAddressModel) -> Seq<u8> {
    u64_le(a.services) + a.ip_address + u16_be(a.port)
}

/// The network address that the 26 bytes at the start of `b` encode; unknown service
/// bits are dropped.
pub open spec fn address_from(b: Seq<u8>) -> NetworkAddressModel {
    NetworkAddressModel {
        services: u64_from_le(b) & Services::ALL,
        ip_address: b.subrange(8, 24),
        port: u16_from_be(b.skip(24)),
    }
}

/// A well-formed address is read back from its bytes, whatever follows them.
pub proof fn lemma_address_from(a: NetworkAddressModel, rest: Seq<u8>)
    requires
        NetworkAddress::well_formed(a),
    ensures
        address_bytes(a).len() == 26,
        address_from(address_bytes(a) + rest) == a,
{
    let b = address_bytes(a) + rest;
    lemma_u64_le(a.services, a.ip_address + u16_be(a.port) + rest);
    lemma_u16_be(a.port, rest);
    assert(b.skip(24) =~= u16_be(a.port) + rest);
    assert(b.subrange(8, 24) =~= a.ip_address);
    assert(b =~= u64_le(a.services) + (a.ip_address + u16_be(a.port) + rest));
}

impl NetworkAddress {
    /// The address of a node with services `services` reached at `socket_address`.
    pub fn new(services: Services, socket_address: SocketAddress) -> (r: Self)
        ensures
            r.services == services,
            r.ip_address@ == ipv6_octets(socket_address.ip),
            r.port == socket_address.port,
    {
        let ip_address: [u8; 16] = match socket_address.ip {
            IpAddress::V4(a) => [0, 0, 0, 0, 0, 0, 0, 0, 0, 0, 0xff, 0xff, a[0], a[1], a[2], a[3]],
            IpAddress::V6(a) => a,
        };
        assert(ip_address@ =~= ipv6_octets(socket_address.ip));
        Self { services, ip_address, port: socket_address.port }
    }
}

impl Encode for NetworkAddress {
    open spec fn spec_encode(v: NetworkAddressModel) -> Result<Seq<u8>, CodecError> {
        Ok(address_bytes(v))
    }

    open spec fn well_formed(v: NetworkAddressModel) -> bool {
        &&& v.services & Services::ALL == v.services
        &&& v.ip_address.len() == 16
    }

    fn encode(&self) -> (r: Result<Vec<u8>, CodecError>) {
        let mut buffer: Vec<u8> = Vec::new();
        put_u64_le(&mut buffer, self.services.bits());
        put_bytes(&mut buffer, self.ip_address.as_slice());
        put_u16_be(&mut buffer, self.port);
        assert(buffer@ =~= address_bytes(self@));
        Ok(buffer)
    }
}

impl Decode for NetworkAddress {
    /// Unknown service bits are dropped.
    open spec fn spec_decode(b: Seq<u8>) -> Result<(NetworkAddressModel, nat), CodecError> {
        if b.len() < 26 {
            Err(CodecError::UnexpectedEnd)
        } else {
            Ok((address_from(b), 26))
        }
    }

    fn decode(bytes: &mut &[u8]) -> (r: Result<NetworkAddress, CodecError>) {
        let ghost b = bytes@;
        if bytes.len() < 26 {
            return Err(CodecError::UnexpectedEnd);
        }
        let services = Services::from_bits_truncate(read_u64_le(bytes)?);
        let o = take_bytes(bytes, 16)?;
        let ip_address: [u8; 16] = [
            o[0], o[1], o[2], o[3], o[4], o[5], o[6], o[7], o[8], o[9], o[10], o[11], o[12],
            o[13], o[14], o[15],
        ];
        assert(ip_address@ =~= b.subrange(8, 24));
        let port = read_u16_be(bytes)?;
        assert(b.skip(8).skip(16) =~= b.skip(24));
        assert(bytes@ =~= b.skip(26));
        Ok(NetworkAddress { services, ip_address, port })
    }
}

impl Codec for NetworkAddress {
    proof fn lemma_decode_encode(v: NetworkAddressModel) {
        lemma_address_from(v, Seq::empty());
        assert(address_bytes(v) + Seq::empty() =~= address_bytes(v));
    }
}

/// The model of a version message, with the user agent as characters
pub struct VersionMessageModel {
    pub version: i32,
    pub services: u64,
    pub timestamp: i64,
    pub receiving_node: NetworkAddressModel,
    pub transmitting_node: NetworkAddressModel,
    pub nonce: u64,
    pub user_agent: Seq<char>,
    pub start_height: i32,
    pub relay: bool,
}

/// The "version" message provides information about the transmitting node to the
/// receiving node at the beginning of a connection. Until both peers have exchanged
/// "version" messages, no other messages will be accepted.
#[derive(Debug, Clone, PartialEq, Eq)]
pub struct VersionMessage {
    /// Highest protocol version understood by the transmitting node
    pub version: i32,
    /// Services supported by the transmitting node encoded as a bitfield
    pub services: Services,
    /// Current Unix time according to the transmitting node's clock
    pub timestamp: i64,
    /// Receiving node as perceived by the transmitting node
    pub receiving_node: NetworkAddress,
    /// Transmitting Node
    pub transmitting_node: NetworkAddress,
    /// Random nonce which can help a node detect a connection to itself
    pub nonce: u64,
    /// User agent (BIP 14); at most 255 bytes long
    pub user_agent: String,
    /// Height of the transmitting node's best block
    pub start_height: i32,
    /// Whether the remote peer should announce relayed transactions or not (BIP 37)
    pub relay: bool,
}

impl View for VersionMessage {
    type V = VersionMessageModel;

    open spec fn view(&self) -> VersionMessageModel {
        VersionMessageModel {
            version: self.version,
            services: self.services@,
            timestamp: self.timestamp,
            receiving_node: self.receiving_node@,
            transmitting_node: self.transmitting_node@,
            nonce: self.nonce,
            user_agent: self.user_agent@,
            start_height: self.start_height,
            relay: self.relay,
        }
    }
}

/// "version", padded with zero bytes to twelve.
pub open spec fn version_command() -> Seq<u8> {
    seq![0x76u8, 0x65u8, 0x72u8, 0x73u8, 0x69u8, 0x6fu8, 0x6eu8, 0u8, 0u8, 0u8, 0u8, 0u8]
}

/// The byte that carries the relay flag.
pub open spec fn relay_byte(relay: bool) -> u8 {
    if relay {
        1
    } else {
        0
    }
}

/// The fields of a version message in order: fixed-width integers little-endian, the
/// addresses as `address_bytes`, the user agent's UTF-8 bytes behind a one-byte length.
pub open spec fn version_bytes(v: VersionMessageModel) -> Seq<u8> {
    let ua = encode_utf8(v.user_agent);
    u32_le(v.version as u32) + (u64_le(v.services) + (u64_le(v.timestamp as u64) + (
    address_bytes(v.receiving_node) + (address_bytes(v.transmitting_node) + (u64_le(v.nonce) + (
    seq![ua.len() as u8] + (ua + (u32_le(v.start_height as u32) + seq![relay_byte(v.relay)]))))))))
}

/// Skipping past a prefix and then `k` more bytes is skipping `k` bytes of the rest.
proof fn lemma_skip_past(a: Seq<u8>, t: Seq<u8>, k: int)
    requires
        0 <= k <= t.len(),
    ensures
        (a + t).skip(a.len() + k) == t.skip(k),
{
    assert((a + t).skip(a.len() + k) =~= t.skip(k));
}

/// Relies on `String::from_utf8`: it accepts exactly the byte sequences that are valid
/// UTF-8, and returns the string they encode.
#[verifier::external_body]
fn string_from_utf8(bytes: Vec<u8>) -> (r: Option<String>)
    ensures
        r is Some <==> valid_utf8(bytes@),
        r is Some ==> r->Some_0@ == decode_utf8(bytes@),
{
    String::from_utf8(bytes).ok()
}

impl VersionMessage {
    pub fn new(
        version: i32,
        services: Services,
        timestamp: i64,
        receiving_node_services: Services,
        receiving_node_address: SocketAddress,
        transmitting_address: SocketAddress,
        transmitting_node_services: Services,
        nonce: u64,
        user_agent: String,
        start_height: i32,
        relay: bool,
    ) -> (r: Self)
        requires
            encode_utf8(user_agent@).len() <= 255,
        ensures
            r.version == version,
            r.services == services,
            r.timestamp == timestamp,
            r.receiving_node.services == receiving_node_services,
            r.receiving_node.ip_address@ == ipv6_octets(receiving_node_address.ip),
            r.receiving_node.port == receiving_node_address.port,
            r.transmitting_node.services == transmitting_node_services,
            r.transmitting_node.ip_address@ == ipv6_octets(transmitting_address.ip),
            r.transmitting_node.port == transmitting_address.port,
            r.nonce == nonce,
            r.user_agent@ == user_agent@,
            r.start_height == start_height,
            r.relay == relay,
    {
        Self {
            version,
            services,
            timestamp,
            receiving_node: NetworkAddress::new(receiving_node_services, receiving_node_address),
            transmitting_node: NetworkAddress::new(
                transmitting_node_services,
                transmitting_address,
            ),
            nonce,
            user_agent,
            start_height,
            relay,
        }
    }
}

/// The command field is the ASCII bytes "version" followed by five zero bytes.
impl CommandName for VersionMessage {
    open spec fn spec_command_name() -> Seq<u8> {
        version_command()
    }

    fn command_name() -> (r: [u8; 12]) {
        let r: [u8; 12] = [0x76, 0x65, 0x72, 0x73, 0x69, 0x6f, 0x6e, 0, 0, 0, 0, 0];
        assert(r@ =~= version_command());
        r
    }

    proof fn lemma_command_len() {
    }
}

impl Encode for VersionMessage {
    /// A user agent longer than 255 bytes is refused, never truncated.
    open spec fn spec_encode(v: VersionMessageModel) -> Result<Seq<u8>, CodecError> {
        if encode_utf8(v.user_agent).len() > 255 {
            Err(CodecError::UserAgentTooLong)
        } else {
            Ok(version_bytes(v))
        }
    }

    open spec fn well_formed(v: VersionMessageModel) -> bool {
        &&& v.services & Services::ALL == v.services
        &&& NetworkAddress::well_formed(v.receiving_node)
        &&& NetworkAddress::well_formed(v.transmitting_node)
    }

    fn encode(&self) -> (r: Result<Vec<u8>, CodecError>) {
        let ua = self.user_agent.as_str().as_bytes();
        if ua.len() > 255 {
            return Err(CodecError::UserAgentTooLong);
        }
        let mut buffer: Vec<u8> = Vec::new();
        put_u32_le(&mut buffer, self.version as u32);
        put_u64_le(&mut buffer, self.services.bits());
        put_u64_le(&mut buffer, self.timestamp as u64);
        let receiving_node = self.receiving_node.encode()?;
        put_bytes(&mut buffer, receiving_node.as_slice());
        let transmitting_node = self.transmitting_node.encode()?;
        put_bytes(&mut buffer, transmitting_node.as_slice());
        put_u64_le(&mut buffer, self.nonce);
        buffer.push(ua.len() as u8);
        put_bytes(&mut buffer, ua);
        put_u32_le(&mut buffer, self.start_height as u32);
        buffer.push(if self.relay { 1 } else { 0 });
        assert(buffer@ =~= version_bytes(self@));
        Ok(buffer)
    }
}

impl Decode for VersionMessage {
    /// The fields are read in order; the user agent must be valid UTF-8 and the relay
    /// byte 0 or 1. Unknown service bits are dropped.
    open spec fn spec_decode(b: Seq<u8>) -> Result<(VersionMessageModel, nat), CodecError> {
        if b.len() < 81 {
            Err(CodecError::UnexpectedEnd)
        } else {
            let n = b[80] as int;
            if b.len() < 81 + n {
                Err(CodecError::UnexpectedEnd)
            } else if !valid_utf8(b.subrange(81, 81 + n)) {
                Err(CodecError::InvalidEncoding)
            } else if b.len() < 86 + n {
                Err(CodecError::UnexpectedEnd)
            } else if b[85 + n] > 1 {
                Err(CodecError::InvalidEncoding)
            } else {
                Ok(
                    (
                        VersionMessageModel {
                            version: u32_from_le(b) as i32,
                            services: u64_from_le(b.skip(4)) & Services::ALL,
                            timestamp: u64_from_le(b.skip(12)) as i64,
                            receiving_node: address_from(b.skip(20)),
                            transmitting_node: address_from(b.skip(46)),
                            nonce: u64_from_le(b.skip(72)),
                            user_agent: decode_utf8(b.subrange(81, 81 + n)),
                            start_height: u32_from_le(b.skip(81 + n)) as i32,
                            relay: b[85 + n] == 1,
                        },
                        (86 + n) as nat,
                    ),
                )
            }
        }
    }

    fn decode(bytes: &mut &[u8]) -> (r: Result<VersionMessage, CodecError>) {
        let ghost b = bytes@;
        if bytes.len() < 81 {
            return Err(CodecError::UnexpectedEnd);
        }
        let version = read_u32_le(bytes)? as i32;
        let services = Services::from_bits_truncate(read_u64_le(bytes)?);
        assert(b.skip(4).skip(8) =~= b.skip(12));
        let timestamp = read_u64_le(bytes)? as i64;
        assert(b.skip(12).skip(8) =~= b.skip(20));
        let receiving_node = NetworkAddress::decode(bytes)?;
        assert(b.skip(20).skip(26) =~= b.skip(46));
        let transmitting_node = NetworkAddress::decode(bytes)?;
        assert(b.skip(46).skip(26) =~= b.skip(72));
        let nonce = read_u64_le(bytes)?;
        assert(b.skip(72).skip(8) =~= b.skip(80));
        let user_agent_len = read_u8(bytes)?;
        assert(b.skip(80).skip(1) =~= b.skip(81));
        let ghost n = user_agent_len as int;
        let user_agent_bytes = take_bytes(bytes, user_agent_len as usize)?;
        assert(user_agent_bytes@ =~= b.subrange(81, 81 + n));
        assert(b.skip(81).skip(n) =~= b.skip(81 + n));
        let user_agent = match string_from_utf8(vstd::slice::slice_to_vec(user_agent_bytes)) {
            Some(s) => s,
            None => {
                return Err(CodecError::InvalidEncoding);
            },
        };
        if bytes.len() < 5 {
            return Err(CodecError::UnexpectedEnd);
        }
        let start_height = read_u32_le(bytes)? as i32;
        assert(b.skip(81 + n).skip(4) =~= b.skip(85 + n));
        let relay_encoding = read_u8(bytes)?;
        assert(b.skip(85 + n).skip(1) =~= b.skip(86 + n));
        let relay = if relay_encoding == 0 {
            false
        } else if relay_encoding == 1 {
            true
        } else {
            return Err(CodecError::InvalidEncoding);
        };
        Ok(
            VersionMessage {
                version,
                services,
                timestamp,
                receiving_node,
                transmitting_node,
                nonce,
                user_agent,
                start_height,
                relay,
            },
        )
    }
}

impl Codec for VersionMessage {
    #[verifier::rlimit(30)]
    proof fn lemma_decode_encode(v: VersionMessageModel) {
        let ua = encode_utf8(v.user_agent);
        let n = ua.len() as int;
        let b = version_bytes(v);
        let t9 = seq![relay_byte(v.relay)];
        let t8 = u32_le(v.start_height as u32) + t9;
        let t7 = ua + t8;
        let t6 = seq![n as u8] + t7;
        let t5 = u64_le(v.nonce) + t6;
        let t4 = address_bytes(v.transmitting_node) + t5;
        let t3 = address_bytes(v.receiving_node) + t4;
        let t2 = u64_le(v.timestamp as u64) + t3;
        let t1 = u64_le(v.services) + t2;
        lemma_u32_le(v.version as u32, t1);
        lemma_u64_le(v.services, t2);
        lemma_u64_le(v.timestamp as u64, t3);
        lemma_address_from(v.receiving_node, t4);
        lemma_address_from(v.transmitting_node, t5);
        lemma_u64_le(v.nonce, t6);
        lemma_u32_le(v.start_height as u32, t9);
        assert(b == u32_le(v.version as u32) + t1);
        lemma_skip_past(u32_le(v.version as u32), t1, 0);
        lemma_skip_past(u32_le(v.version as u32), t1, 8);
        lemma_skip_past(u64_le(v.services), t2, 0);
        assert(b.skip(12) == t2);
        lemma_skip_past(u32_le(v.version as u32), t1, 16);
        lemma_skip_past(u64_le(v.services), t2, 8);
        lemma_skip_past(u64_le(v.timestamp as u64), t3, 0);
        assert(b.skip(20) == t3);
        lemma_skip_past(u32_le(v.version as u32), t1, 42);
        lemma_skip_past(u64_le(v.services), t2, 34);
        lemma_skip_past(u64_le(v.timestamp as u64), t3, 26);
        lemma_skip_past(address_bytes(v.receiving_node), t4, 0);
        assert(b.skip(46) == t4);
        lemma_skip_past(u32_le(v.version as u32), t1, 68);
        lemma_skip_past(u64_le(v.services), t2, 60);
        lemma_skip_past(u64_le(v.timestamp as u64), t3, 52);
        lemma_skip_past(address_bytes(v.receiving_node), t4, 26);
        lemma_skip_past(address_bytes(v.transmitting_node), t5, 0);
        assert(b.skip(72) == t5);
        lemma_skip_past(u32_le(v.version as u32), t1, 76);
        lemma_skip_past(u64_le(v.services), t2, 68);
        lemma_skip_past(u64_le(v.timestamp as u64), t3, 60);
        lemma_skip_past(address_bytes(v.receiving_node), t4, 34);
        lemma_skip_past(address_bytes(v.transmitting_node), t5, 8);
        lemma_skip_past(u64_le(v.nonce), t6, 0);
        assert(b.skip(80) == t6);
        assert(b[80] == t6[0]);
        lemma_skip_past(seq![n as u8], t7, 0);
        assert(t6.skip(1) == t7);
        assert(b.skip(81) =~= t7) by {
            assert(b.skip(81) =~= b.skip(80).skip(1));
        }
        assert(b.len() == 86 + n);
        assert(b.subrange(81, 81 + n) =~= ua) by {
            assert(b.subrange(81, 81 + n) =~= t7.take(n));
        }
        assert(b.skip(81 + n) =~= t8) by {
            assert(b.skip(81 + n) =~= t7.skip(n));
        }
        assert(b[85 + n] == relay_byte(v.relay)) by {
            assert(b[85 + n] == t8[4]);
        }
        assert(t8 == u32_le(v.start_height as u32) + t9);
        vstd::utf8::encode_utf8_decode_utf8(v.user_agent);
        vstd::utf8::encode_utf8_valid_utf8(v.user_agent);
        lemma_signed_casts(v.version, v.timestamp, v.start_height);
    }
}

/// Signed fields travel as the unsigned integers of the same width, and come back intact.
proof fn lemma_signed_casts(a: i32, b: i64, c: i32)
    ensures
        (a as u32) as i32 == a,
        (b as u64) as i64 == b,
        (c as u32) as i32 == c,
{
    assert((a as u32) as i32 == a) by (bit_vector);
    assert((b as u64) as i64 == b) by (bit_vector);
    assert((c as u32) as i32 == c) by (bit_vector);
}

} // verus!
