use vstd::prelude::*;
use crate::messages::codec::{Codec, CodecError, Decode, Encode};
use crate::messages::CommandName;

verus! {

/// The acknowledgment of a version message; it carries no payload
#[derive(Debug, Clone, Copy, PartialEq, Eq, Structural)]
pub struct VerackMessage;

/// "verack", padded with zero bytes to twelve.
pub open spec fn verack_command() -> Seq<u8> {
    seq![0x76u8, 0x65u8, 0x72u8, 0x61u8, 0x63u8, 0x6bu8, 0u8, 0u8, 0u8, 0u8, 0u8, 0u8]
}

/// The command field is the ASCII bytes "verack" followed by six zero bytes.
impl View for VerackMessage {
    type V = VerackMessage;

    open spec fn view(&self) -> VerackMessage {
        *self
    }
}

impl CommandName for VerackMessage {
    open spec fn spec_command_name() -> Seq<u8> {
        verack_command()
    }

    fn command_name() -> (r: [u8; 12]) {
        let r: [u8; 12] = [0x76, 0x65, 0x72, 0x61, 0x63, 0x6b, 0, 0, 0, 0, 0, 0];
        assert(r@ =~= verack_command());
        r
    }

    proof fn lemma_command_len() {
    }
}

impl Encode for VerackMessage {
    open spec fn spec_encode(v: VerackMessage) -> Result<Seq<u8>, CodecError> {
        Ok(Seq::empty())
    }

    open spec fn well_formed(v: VerackMessage) -> bool {
        true
    }

    fn encode(&self) -> (r: Result<Vec<u8>, CodecError>) {
        let v: Vec<u8> = Vec::new();
        assert(v@ =~= Seq::empty());
        Ok(v)
    }
}

impl Decode for VerackMessage {
    /// An acknowledgment is the empty byte sequence: any byte left is an error.
    open spec fn spec_decode(b: Seq<u8>) -> Result<(VerackMessage, nat), CodecError> {
        if b.len() == 0 {
            Ok((VerackMessage, 0))
        } else {
            Err(CodecError::InvalidEncoding)
        }
    }

    fn decode(bytes: &mut &[u8]) -> (r: Result<VerackMessage, CodecError>) {
        if bytes.len() != 0 {
            return Err(CodecError::InvalidEncoding);
        }
        assert(bytes@.skip(0) =~= bytes@);
        Ok(VerackMessage)
    }
}

impl Codec for VerackMessage {
    proof fn lemma_decode_encode(v: VerackMessage) {
    }
}

/// Decoding a verack payload succeeds on the empty sequence and fails on every other.
pub proof fn lemma_verack_strict(b: Seq<u8>)
    ensures
        (VerackMessage::spec_decode(b) is Ok) == (b.len() == 0),
{
}

} // verus!
