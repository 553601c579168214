//! Core of an MTProto client: session bookkeeping, the TL wire format,
//! message envelopes, transport framings and the authorization handshake.

pub mod crypto;
pub mod error;
pub mod handshake;
pub mod network;
pub mod protocol;
pub mod tl;
