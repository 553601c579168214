//! The failures that the layers above the wire format report.

use vstd::prelude::*;

verus! {

/// Why a message could not be built, framed, unwrapped or authorized.
#[derive(Clone, Copy, Debug, PartialEq, Eq, Structural)]
#[allow(inconsistent_fields)]
pub enum Error {
    /// A value could not be written to or read from the wire format.
    Tl(crate::tl::Error),
    /// A message of this many bytes is longer than a length field can say.
    MessageTooLong(usize),
    /// A packet is longer than its framing can announce.
    LengthTooLarge,
    /// A length is not a whole number of the units it is made of: a payload
    /// for the abridged framing of words, the input of the cipher of blocks.
    UnalignedLength,
    /// The checksum of a packet differs from the one it carries.
    CrcMismatch { expected: u32, found: u32 },
    /// A packet carries another sequence number than the next expected one.
    SeqOutOfOrder { expected: u32, found: u32 },
    /// The input ends before the packet does.
    UnexpectedEof,
    /// An unauthenticated message carries a key id other than zero.
    PlainAuthKeyIdNonZero { found: u64 },
    /// A run of bytes has another length than the one that is declared or
    /// called for.
    LengthMismatch { expected: usize, found: usize },
    /// An authenticated message names another key than the session's.
    AuthKeyIdMismatch { expected: u64, found: u64 },
    /// The message key does not match the decrypted content.
    MsgKeyMismatch,
    /// The decrypted content declares a length it cannot have.
    BadInnerLength,
    /// A handshake response answers another nonce than the one sent.
    NonceMismatch { expected: u128, found: u128 },
    /// The server offers no key that the client knows.
    NoKnownFingerprint,
    /// A number has more bytes than the big-number routines take.
    NumberTooLong,
    /// The cryptographic library refused an operation.
    CryptoFailure,
    /// The product of the two primes could not be taken apart.
    BadPq,
    /// The digest in front of a decrypted handshake block does not match it.
    InnerHashMismatch,
    /// The server asks to repeat the last handshake step.
    DhGenRetry,
    /// The server refuses the key exchange.
    DhGenFail,
    /// A handshake response arrived in a state that does not await it.
    UnexpectedResponse,
}

} // verus!
