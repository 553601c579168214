//! The cryptographic primitives that the envelope and the handshake use.

pub mod aes;
pub mod factor;
pub mod hash;
pub mod random;
pub mod rsa;
