//! The payload types of the handshake
pub mod verack;
pub mod version;

use vstd::prelude::*;
use crate::messages::codec::CodecError;
use crate::messages::{chain_of_magic, Message, MessageModel};
use crate::messages::codec::Decode;
use verack::{verack_command, VerackMessage};
use version::{version_command, VersionMessage, VersionMessageModel};

verus! {

/// A frame of a known network that carries the "verack" command fails with
/// `CommandNameUnknown` when decoded as a version message, and one that carries
/// "version" fails the same way when decoded as a verack message.
pub proof fn lemma_command_mismatch(b: Seq<u8>)
    requires
        b.len() >= 16,
        chain_of_magic(b.take(4)) is Some,
    ensures
        b.subrange(4, 16) == verack_command() ==> Message::<VersionMessage>::spec_decode(b)
            == Err::<(MessageModel<VersionMessageModel>, nat), CodecError>(
            CodecError::CommandNameUnknown,
        ),
        b.subrange(4, 16) == version_command() ==> Message::<VerackMessage>::spec_decode(b)
            == Err::<(MessageModel<VerackMessage>, nat), CodecError>(
            CodecError::CommandNameUnknown,
        ),
{
    assert(verack_command()[3] != version_command()[3]);
}

} // verus!
