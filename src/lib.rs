//! Framing, codec and handshake logic for the Bitcoin peer-to-peer protocol.
pub mod constants;
pub mod crypto;
pub mod messages;
pub mod wire;
pub mod handshake;
pub mod options;
