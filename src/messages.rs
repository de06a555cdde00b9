//! Bitcoin p2p messages: the network discriminator and the message envelope
pub mod codec;
pub mod types;

use vstd::prelude::*;
use crate::constants::{
    MAINNET_MAGIC_VALUE, NAMECOIN_MAGIC_VALUE, REGNET_MAGIC_VALUE, SIGNET_MAGIC_VALUE,
    TESTNET3_MAGIC_VALUE, MAX_PAYLOAD_SIZE,
};
use crate::crypto::{checksum, checksum_of};
use crate::wire::{
    lemma_u32_le, put_bytes, put_u32_le, read_u32_le, same_bytes, take_bytes, u32_from_le, u32_le,
};
use codec::{Codec, CodecError, Decode, Encode};

verus! {

/// The fixed 12-byte command field that names a payload type on the wire
pub trait CommandName {
    spec fn spec_command_name() -> Seq<u8>;

    fn command_name() -> (r: [u8; 12])
        ensures
            r@ == Self::spec_command_name(),
    ;

    /// The command field is twelve bytes long.
    proof fn lemma_command_len()
        ensures
            Self::spec_command_name().len() == 12,
    ;
}

/// Different Bitcoin Networks
#[derive(Debug, Copy, Clone, PartialEq, Eq, Structural)]
pub enum Chain {
    Mainnet,
    Regnet,
    Testnet3,
    Signet,
    Namecoin,
}

impl View for Chain {
    type V = Chain;

    open spec fn view(&self) -> Chain {
        *self
    }
}

/// The magic value of each network.
pub open spec fn magic_of(chain: Chain) -> Seq<u8> {
    match chain {
        Chain::Mainnet => seq![0xf9u8, 0xbeu8, 0xb4u8, 0xd9u8],
        Chain::Regnet => seq![0xfau8, 0xbfu8, 0xb5u8, 0xdau8],
        Chain::Testnet3 => seq![0x0bu8, 0x11u8, 0x09u8, 0x07u8],
        Chain::Signet => seq![0x0au8, 0x0cu8, 0xcfu8, 0x40u8],
        Chain::Namecoin => seq![0xf9u8, 0xbeu8, 0xb4u8, 0xfeu8],
    }
}

/// The network whose magic value is `m`, if there is one.
pub open spec fn chain_of_magic(m: Seq<u8>) -> Option<Chain> {
    if m == magic_of(Chain::Mainnet) {
        Some(Chain::Mainnet)
    } else if m == magic_of(Chain::Regnet) {
        Some(Chain::Regnet)
    } else if m == magic_of(Chain::Testnet3) {
        Some(Chain::Testnet3)
    } else if m == magic_of(Chain::Signet) {
        Some(Chain::Signet)
    } else if m == magic_of(Chain::Namecoin) {
        Some(Chain::Namecoin)
    } else {
        None
    }
}

/// Each network has its own magic value, and each magic value names its network back.
pub proof fn lemma_magic_bijective(chain: Chain)
    ensures
        magic_of(chain).len() == 4,
        chain_of_magic(magic_of(chain)) == Some(chain),
{
    let m = magic_of(chain);
    assert(m[3] != magic_of(Chain::Mainnet)[3] ==> m != magic_of(Chain::Mainnet));
    assert(m[0] != magic_of(Chain::Regnet)[0] ==> m != magic_of(Chain::Regnet));
    assert(m[0] != magic_of(Chain::Testnet3)[0] ==> m != magic_of(Chain::Testnet3));
    assert(m[0] != magic_of(Chain::Signet)[0] ==> m != magic_of(Chain::Signet));
}

/// The network with the lower-case name `s`, if there is one.
pub open spec fn chain_of_name(s: Seq<char>) -> Option<Chain> {
    if s == "mainnet"@ {
        Some(Chain::Mainnet)
    } else if s == "regnet"@ {
        Some(Chain::Regnet)
    } else if s == "testnet3"@ {
        Some(Chain::Testnet3)
    } else if s == "signet"@ {
        Some(Chain::Signet)
    } else if s == "namecoin"@ {
        Some(Chain::Namecoin)
    } else {
        None
    }
}

/// Two strings are equal exactly when their bytes are.
proof fn lemma_same_str(a: &str, b: &str)
    ensures
        (vstd::utf8::encode_utf8(a@) == vstd::utf8::encode_utf8(b@)) == (a@ == b@),
{
    vstd::utf8::encode_utf8_decode_utf8(a@);
    vstd::utf8::encode_utf8_decode_utf8(b@);
}

/// Whether `s` and `t` are the same string.
fn same_str(s: &str, t: &str) -> (r: bool)
    ensures
        r == (s@ == t@),
{
    proof {
        lemma_same_str(s, t);
    }
    same_bytes(s.as_bytes(), t.as_bytes())
}

impl Chain {
    /// Parses the lower-case name of a network ("mainnet", "regnet", "testnet3",
    /// "signet" or "namecoin").
    pub fn from_name(s: &str) -> (r: Option<Chain>)
        ensures
            r == chain_of_name(s@),
    {
        if same_str(s, "mainnet") {
            Some(Chain::Mainnet)
        } else if same_str(s, "regnet") {
            Some(Chain::Regnet)
        } else if same_str(s, "testnet3") {
            Some(Chain::Testnet3)
        } else if same_str(s, "signet") {
            Some(Chain::Signet)
        } else if same_str(s, "namecoin") {
            Some(Chain::Namecoin)
        } else {
            None
        }
    }
}

impl Encode for Chain {
    open spec fn spec_encode(v: Chain) -> Result<Seq<u8>, CodecError> {
        Ok(magic_of(v))
    }

    open spec fn well_formed(v: Chain) -> bool {
        true
    }

    /// Magic value indicating message origin network, and used to seek to next message
    /// when stream state is unknown
    fn encode(&self) -> (r: Result<Vec<u8>, CodecError>) {
        let magic: [u8; 4] = match self {
            Chain::Mainnet => MAINNET_MAGIC_VALUE,
            Chain::Regnet => REGNET_MAGIC_VALUE,
            Chain::Testnet3 => TESTNET3_MAGIC_VALUE,
            Chain::Signet => SIGNET_MAGIC_VALUE,
            Chain::Namecoin => NAMECOIN_MAGIC_VALUE,
        };
        let v = vstd::slice::slice_to_vec(magic.as_slice());
        assert(v@ =~= magic_of(*self));
        Ok(v)
    }
}

impl Decode for Chain {
    open spec fn spec_decode(b: Seq<u8>) -> Result<(Chain, nat), CodecError> {
        if b.len() < 4 {
            Err(CodecError::UnexpectedEnd)
        } else {
            match chain_of_magic(b.take(4)) {
                Some(chain) => Ok((chain, 4)),
                None => Err(CodecError::UnknownMagicValue),
            }
        }
    }

    fn decode(bytes: &mut &[u8]) -> (r: Result<Chain, CodecError>) {
        let magic = take_bytes(bytes, 4)?;
        if same_bytes(magic, MAINNET_MAGIC_VALUE.as_slice()) {
            Ok(Chain::Mainnet)
        } else if same_bytes(magic, REGNET_MAGIC_VALUE.as_slice()) {
            Ok(Chain::Regnet)
        } else if same_bytes(magic, TESTNET3_MAGIC_VALUE.as_slice()) {
            Ok(Chain::Testnet3)
        } else if same_bytes(magic, SIGNET_MAGIC_VALUE.as_slice()) {
            Ok(Chain::Signet)
        } else if same_bytes(magic, NAMECOIN_MAGIC_VALUE.as_slice()) {
            Ok(Chain::Namecoin)
        } else {
            Err(CodecError::UnknownMagicValue)
        }
    }
}

impl Codec for Chain {
    proof fn lemma_decode_encode(v: Chain) {
        lemma_magic_bijective(v);
        assert(magic_of(v).take(4) =~= magic_of(v));
    }
}

/// Struct represents a message on the Bitcoin p2p network protocol
pub struct Message<M: CommandName + Encode + Decode> {
    pub chain: Chain,
    pub message: M,
}

/// The model of a message: its network and the view of its payload
pub struct MessageModel<V> {
    pub chain: Chain,
    pub message: V,
}

impl<M: CommandName + Encode + Decode> View for Message<M> {
    type V = MessageModel<M::V>;

    open spec fn view(&self) -> MessageModel<M::V> {
        MessageModel { chain: self.chain, message: self.message@ }
    }
}

impl<M: CommandName + Encode + Decode> Message<M> {
    pub fn new(chain: Chain, message: M) -> (r: Self)
        ensures
            r.chain == chain,
            r.message == message,
    {
        Self { chain, message }
    }
}

/// The frame that carries `payload` under the command field `command` on the network
/// `chain`: magic value, command, payload length (little-endian), checksum, payload.
pub open spec fn frame_of(chain: Chain, command: Seq<u8>, payload: Seq<u8>) -> Seq<u8> {
    magic_of(chain) + command + u32_le(payload.len() as u32) + checksum_of(payload) + payload
}

/// The length field of a frame `b`.
pub open spec fn frame_len_field(b: Seq<u8>) -> u32 {
    u32_from_le(b.skip(16))
}

/// The payload of a frame `b` whose length field is `len`.
pub open spec fn frame_payload(b: Seq<u8>, len: u32) -> Seq<u8> {
    b.subrange(24, 24 + len)
}

impl<M: CommandName + Encode + Decode> Encode for Message<M> {
    /// The payload is encoded first; one longer than the maximum payload size is refused.
    open spec fn spec_encode(v: MessageModel<M::V>) -> Result<Seq<u8>, CodecError> {
        match M::spec_encode(v.message) {
            Ok(p) => if p.len() > MAX_PAYLOAD_SIZE {
                Err(CodecError::PayloadTooBig)
            } else {
                Ok(frame_of(v.chain, M::spec_command_name(), p))
            },
            Err(e) => Err(e),
        }
    }

    open spec fn well_formed(v: MessageModel<M::V>) -> bool {
        M::well_formed(v.message)
    }

    fn encode(&self) -> (r: Result<Vec<u8>, CodecError>) {
        let encoded_message = self.message.encode()?;
        if encoded_message.len() > MAX_PAYLOAD_SIZE as usize {
            return Err(CodecError::PayloadTooBig);
        }
        let checksum = checksum(encoded_message.as_slice());
        let magic = self.chain.encode()?;
        let command = M::command_name();

        let mut buffer: Vec<u8> = Vec::new();
        put_bytes(&mut buffer, magic.as_slice());
        put_bytes(&mut buffer, command.as_slice());
        put_u32_le(&mut buffer, encoded_message.len() as u32);
        put_bytes(&mut buffer, checksum.as_slice());
        put_bytes(&mut buffer, encoded_message.as_slice());
        assert(buffer@ =~= frame_of(self.chain, M::spec_command_name(), encoded_message@));
        Ok(buffer)
    }
}

impl<M: CommandName + Encode + Decode> Decode for Message<M> {
    /// The checks run in this order: magic value, command, length bound, checksum,
    /// payload. A length above the maximum is refused before the payload is read.
    open spec fn spec_decode(b: Seq<u8>) -> Result<(MessageModel<M::V>, nat), CodecError> {
        if b.len() < 4 {
            Err(CodecError::UnexpectedEnd)
        } else if chain_of_magic(b.take(4)) is None {
            Err(CodecError::UnknownMagicValue)
        } else if b.len() < 16 {
            Err(CodecError::UnexpectedEnd)
        } else if b.subrange(4, 16) != M::spec_command_name() {
            Err(CodecError::CommandNameUnknown)
        } else if b.len() < 20 {
            Err(CodecError::UnexpectedEnd)
        } else if frame_len_field(b) > MAX_PAYLOAD_SIZE {
            Err(CodecError::PayloadTooBig)
        } else if b.len() < 24 + frame_len_field(b) {
            Err(CodecError::UnexpectedEnd)
        } else if b.subrange(20, 24) != checksum_of(frame_payload(b, frame_len_field(b))) {
            Err(CodecError::ChecksumInvalid)
        } else {
            match M::spec_decode(frame_payload(b, frame_len_field(b))) {
                Ok((message, _)) => Ok(
                    (
                        MessageModel { chain: chain_of_magic(b.take(4))->Some_0, message },
                        (24 + frame_len_field(b)) as nat,
                    ),
                ),
                Err(e) => Err(e),
            }
        }
    }

    fn decode(bytes: &mut &[u8]) -> (r: Result<Self, CodecError>) {
        let ghost b = bytes@;
        let chain = Chain::decode(bytes)?;
        let command_name = take_bytes(bytes, 12)?;
        let expected = M::command_name();
        assert(command_name@ =~= b.subrange(4, 16));
        if !same_bytes(command_name, expected.as_slice()) {
            return Err(CodecError::CommandNameUnknown);
        }
        let encoded_message_len = read_u32_le(bytes)?;
        assert(b.skip(16) =~= b.skip(4).skip(12));
        if encoded_message_len > MAX_PAYLOAD_SIZE {
            return Err(CodecError::PayloadTooBig);
        }
        let received_checksum = take_bytes(bytes, 4)?;
        let mut encoded_message = match take_bytes(bytes, encoded_message_len as usize) {
            Ok(p) => p,
            Err(e) => {
                return Err(e);
            },
        };
        assert(received_checksum@ =~= b.subrange(20, 24));
        assert(encoded_message@ =~= frame_payload(b, encoded_message_len));
        if !same_bytes(received_checksum, checksum(encoded_message).as_slice()) {
            return Err(CodecError::ChecksumInvalid);
        }
        assert(bytes@ =~= b.skip(24 + encoded_message_len));
        let message = M::decode(&mut encoded_message)?;
        Ok(Message { chain, message })
    }
}

impl<M: CommandName + Codec> Codec for Message<M> {
    proof fn lemma_decode_encode(v: MessageModel<M::V>) {
        let p = M::spec_encode(v.message)->Ok_0;
        let command = M::spec_command_name();
        let b = frame_of(v.chain, command, p);
        M::lemma_command_len();
        M::lemma_decode_encode(v.message);
        lemma_magic_bijective(v.chain);
        lemma_u32_le(p.len() as u32, checksum_of(p) + p);
        assert(b.take(4) =~= magic_of(v.chain));
        assert(b.subrange(4, 16) =~= command);
        assert(b.skip(16) =~= u32_le(p.len() as u32) + (checksum_of(p) + p));
        assert(frame_len_field(b) == p.len());
        assert(b.subrange(20, 24) =~= checksum_of(p));
        assert(frame_payload(b, frame_len_field(b)) =~= p);
    }
}

/// Changing one byte of a valid frame's payload, while the checksum field stays as it
/// was, makes decoding fail with `ChecksumInvalid` (unless the changed payload has the
/// same checksum as the original one).
pub proof fn lemma_frame_integrity<M: CommandName + Encode + Decode>(
    v: MessageModel<M::V>,
    i: int,
    x: u8,
)
    requires
        Message::<M>::spec_encode(v) is Ok,
        0 <= i < M::spec_encode(v.message)->Ok_0.len(),
        x != M::spec_encode(v.message)->Ok_0[i],
        checksum_of(M::spec_encode(v.message)->Ok_0.update(i, x)) != checksum_of(
            M::spec_encode(v.message)->Ok_0,
        ),
    ensures
        Message::<M>::spec_decode(Message::<M>::spec_encode(v)->Ok_0.update(24 + i, x))
            == Err::<(MessageModel<M::V>, nat), CodecError>(CodecError::ChecksumInvalid),
{
    let p = M::spec_encode(v.message)->Ok_0;
    let command = M::spec_command_name();
    let b = frame_of(v.chain, command, p);
    let f = b.update(24 + i, x);
    M::lemma_command_len();
    lemma_magic_bijective(v.chain);
    lemma_u32_le(p.len() as u32, checksum_of(p) + p);
    assert(f.take(4) =~= magic_of(v.chain));
    assert(f.subrange(4, 16) =~= command);
    assert(f.skip(16) =~= u32_le(p.len() as u32) + (checksum_of(p) + p.update(i, x)));
    lemma_u32_le(p.len() as u32, checksum_of(p) + p.update(i, x));
    assert(frame_len_field(f) == p.len());
    assert(f.subrange(20, 24) =~= checksum_of(p));
    assert(frame_payload(f, frame_len_field(f)) =~= p.update(i, x));
}

/// A frame whose first four bytes are no known magic value fails with
/// `UnknownMagicValue`, whatever payload type it is decoded as.
pub proof fn lemma_magic_rejection<M: CommandName + Encode + Decode>(b: Seq<u8>)
    requires
        b.len() >= 4,
        chain_of_magic(b.take(4)) is None,
    ensures
        Message::<M>::spec_decode(b) == Err::<(MessageModel<M::V>, nat), CodecError>(
            CodecError::UnknownMagicValue,
        ),
{
}

/// A frame of a known network, with the right command field, whose length field exceeds
/// the maximum payload size fails with `PayloadTooBig`, however few of the claimed
/// payload bytes follow its header.
pub proof fn lemma_oversized_payload<M: CommandName + Encode + Decode>(b: Seq<u8>)
    requires
        b.len() >= 20,
        chain_of_magic(b.take(4)) is Some,
        b.subrange(4, 16) == M::spec_command_name(),
        frame_len_field(b) > MAX_PAYLOAD_SIZE,
    ensures
        Message::<M>::spec_decode(b) == Err::<(MessageModel<M::V>, nat), CodecError>(
            CodecError::PayloadTooBig,
        ),
{
}

} // verus!
