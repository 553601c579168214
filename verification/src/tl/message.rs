//! Messages and their envelopes: what goes between the framing and the
//! serialized request or response.

use crate::error::Error;
use crate::tl::parsing::append_bytes;
use crate::tl::parsing::copy_range;
use crate::tl::parsing::le_bytes;
use crate::tl::parsing::le_value;
use crate::tl::parsing::lemma_le_bytes_len;
use crate::tl::parsing::lemma_le_value_bound;
use crate::tl::parsing::lemma_le_value_of_bytes;
use crate::tl::parsing::lemma_pow256_values;
use crate::tl::parsing::u32_from_le;
use crate::tl::parsing::u32_le;
use crate::tl::parsing::u64_from_le;
use crate::tl::parsing::u64_le;
use crate::tl::primitive::lemma_pow2_values;
use crate::tl::primitive::to_signed;
use crate::tl::primitive::to_unsigned;
use vstd::prelude::*;

verus! {

/// The longest body that the length field of an envelope can announce.
pub const MAX_BODY_LEN: usize = 0xffff_ffff;

/// Length of the header of an unauthenticated envelope: key id, message id
/// and body length.
pub const PLAIN_HEADER_LEN: usize = 20;

/// What the kinds of message have in common: they are made from the
/// session's identifiers and a body, and their id can be renewed.
pub trait MessageCommon<T>: Sized {
    /// Whether a message can carry `obj`.
    spec fn accepts(obj: &T) -> bool;

    /// The message that `new` makes of its arguments.
    spec fn built(salt: i64, session_id: i64, message_id: i64, seq_no: u32, obj: T) -> Self;

    /// The id of the message.
    spec fn message_id_of(&self) -> i64;

    /// The body of the message.
    spec fn body_of(&self) -> T;

    /// The message with its id replaced.
    spec fn with_message_id(&self, message_id: i64) -> Self;

    /// A message keeps the id and the body it was made with.
    proof fn lemma_built(salt: i64, session_id: i64, message_id: i64, seq_no: u32, obj: T)
        ensures
            Self::built(salt, session_id, message_id, seq_no, obj).message_id_of() == message_id,
            Self::built(salt, session_id, message_id, seq_no, obj).body_of() == obj,
    ;

    /// A message with a new id has that id and the body it had.
    proof fn lemma_with_message_id(message: Self, message_id: i64)
        ensures
            message.with_message_id(message_id).message_id_of() == message_id,
            message.with_message_id(message_id).body_of() == message.body_of(),
    ;

    /// Makes a message, or fails with `MessageTooLong` when `obj` is longer
    /// than an envelope can announce.
    fn new(salt: i64, session_id: i64, message_id: i64, seq_no: u32, obj: T) -> (r: Result<
        Self,
        Error,
    >)
        ensures
            Self::accepts(&obj) ==> r == Ok::<Self, Error>(
                Self::built(salt, session_id, message_id, seq_no, obj),
            ),
            !Self::accepts(&obj) ==> r is Err && r->Err_0 is MessageTooLong,
    ;

    /// Gives the message another id.
    fn set_message_id(&mut self, message_id: i64)
        ensures
            *final(self) == old(self).with_message_id(message_id),
    ;

    /// Takes the body out of the message.
    fn into_body(self) -> (body: T)
        ensures
            body == self.body_of(),
    ;
}

/// A message that travels without authentication.
#[derive(Debug)]
pub struct MessagePlain {
    pub message_id: i64,
    pub body: Vec<u8>,
}

/// A message that travels encrypted under the authorization key.
#[derive(Debug)]
pub struct Message {
    pub salt: i64,
    pub session_id: i64,
    pub message_id: i64,
    pub seq_no: u32,
    pub body: Vec<u8>,
}

impl MessageCommon<Vec<u8>> for MessagePlain {
    open spec fn accepts(obj: &Vec<u8>) -> bool {
        obj@.len() <= MAX_BODY_LEN
    }

    open spec fn built(salt: i64, session_id: i64, message_id: i64, seq_no: u32, obj: Vec<u8>) -> Self {
        MessagePlain { message_id, body: obj }
    }

    open spec fn message_id_of(&self) -> i64 {
        self.message_id
    }

    open spec fn body_of(&self) -> Vec<u8> {
        self.body
    }

    open spec fn with_message_id(&self, message_id: i64) -> Self {
        MessagePlain { message_id, body: self.body }
    }

    proof fn lemma_built(salt: i64, session_id: i64, message_id: i64, seq_no: u32, obj: Vec<u8>) {
    }

    proof fn lemma_with_message_id(message: Self, message_id: i64) {
    }

    fn new(salt: i64, session_id: i64, message_id: i64, seq_no: u32, obj: Vec<u8>) -> (r: Result<
        Self,
        Error,
    >) {
        if obj.len() > MAX_BODY_LEN {
            return Err(Error::MessageTooLong(obj.len()));
        }
        Ok(MessagePlain { message_id, body: obj })
    }

    fn set_message_id(&mut self, message_id: i64) {
        self.message_id = message_id;
    }

    fn into_body(self) -> (body: Vec<u8>) {
        self.body
    }
}

impl MessageCommon<Vec<u8>> for Message {
    open spec fn accepts(obj: &Vec<u8>) -> bool {
        obj@.len() <= MAX_BODY_LEN
    }

    open spec fn built(salt: i64, session_id: i64, message_id: i64, seq_no: u32, obj: Vec<u8>) -> Self {
        Message { salt, session_id, message_id, seq_no, body: obj }
    }

    open spec fn message_id_of(&self) -> i64 {
        self.message_id
    }

    open spec fn body_of(&self) -> Vec<u8> {
        self.body
    }

    open spec fn with_message_id(&self, message_id: i64) -> Self {
        Message {
            salt: self.salt,
            session_id: self.session_id,
            message_id,
            seq_no: self.seq_no,
            body: self.body,
        }
    }

    proof fn lemma_built(salt: i64, session_id: i64, message_id: i64, seq_no: u32, obj: Vec<u8>) {
    }

    proof fn lemma_with_message_id(message: Self, message_id: i64) {
    }

    fn new(salt: i64, session_id: i64, message_id: i64, seq_no: u32, obj: Vec<u8>) -> (r: Result<
        Self,
        Error,
    >) {
        if obj.len() > MAX_BODY_LEN {
            return Err(Error::MessageTooLong(obj.len()));
        }
        Ok(Message { salt, session_id, message_id, seq_no, body: obj })
    }

    fn set_message_id(&mut self, message_id: i64) {
        self.message_id = message_id;
    }

    fn into_body(self) -> (body: Vec<u8>) {
        self.body
    }
}

/// A signed 64-bit number as eight little-endian bytes.
pub open spec fn i64_bytes(x: i64) -> Seq<u8> {
    le_bytes(to_unsigned(x as int, 64), 8)
}

/// The signed 64-bit number that eight little-endian bytes spell.
pub open spec fn i64_value(s: Seq<u8>) -> i64 {
    to_signed(le_value(s), 64) as i64
}

/// Eight bytes that are written and read back give the number back.
pub proof fn lemma_i64_round_trip(x: i64)
    ensures
        i64_value(i64_bytes(x)) == x,
        i64_bytes(x).len() == 8,
{
    lemma_pow256_values();
    lemma_pow2_values();
    lemma_le_bytes_len(to_unsigned(x as int, 64), 8);
    lemma_le_value_of_bytes(to_unsigned(x as int, 64), 8);
    vstd::arithmetic::div_mod::lemma_small_mod(
        to_unsigned(x as int, 64),
        0x1_0000_0000_0000_0000,
    );
}

/// Appends a signed 64-bit number as eight little-endian bytes.
pub fn push_i64(out: &mut Vec<u8>, x: i64)
    ensures
        final(out)@ == old(out)@ + i64_bytes(x),
{
    let bits: u64 = #[verifier::truncate] (x as u64);
    proof {
        lemma_pow2_values();
        assert(bits as int == (if x >= 0 {
            x as int
        } else {
            x + 0x1_0000_0000_0000_0000
        })) by (bit_vector)
            requires
                bits == x as u64,
        ;
    }
    let bytes = u64_le(bits);
    append_bytes(out, bytes.as_slice());
}

/// The signed 64-bit number in the eight bytes of `src` from `at` on.
pub fn i64_at(src: &[u8], at: usize) -> (x: i64)
    requires
        at + 8 <= src@.len(),
    ensures
        x == i64_value(src@.subrange(at as int, at + 8)),
{
    let total = src.len();
    let window = vstd::slice::slice_subrange(src, at, at + 8);
    let bits = u64_from_le(window);
    assert(window@.subrange(0, 8) =~= src@.subrange(at as int, at + 8));
    let x: i64 = #[verifier::truncate] (bits as i64);
    proof {
        lemma_pow2_values();
        lemma_pow256_values();
        lemma_le_value_bound(src@.subrange(at as int, at + 8));
        assert(x as int == (if bits < 0x8000_0000_0000_0000 {
            bits as int
        } else {
            bits - 0x1_0000_0000_0000_0000
        })) by (bit_vector)
            requires
                x == bits as i64,
        ;
    }
    x
}

/// The unsigned 32-bit number in the four bytes of `src` from `at` on.
pub fn u32_at(src: &[u8], at: usize) -> (x: u32)
    requires
        at + 4 <= src@.len(),
    ensures
        x == le_value(src@.subrange(at as int, at + 4)),
{
    let total = src.len();
    let window = vstd::slice::slice_subrange(src, at, at + 4);
    let x = u32_from_le(window);
    assert(window@.subrange(0, 4) =~= src@.subrange(at as int, at + 4));
    x
}

/// The envelope of an unauthenticated message: a zero key id, the message
/// id, the length of the body, and the body.
pub open spec fn plain_envelope(message_id: i64, body: Seq<u8>) -> Seq<u8> {
    le_bytes(0, 8) + i64_bytes(message_id) + le_bytes(body.len(), 4) + body
}

/// What an unauthenticated envelope holds: the message id and the body. An
/// envelope shorter than its header is a `LengthMismatch` of the length of
/// the header and that of the envelope; one with a key id other than zero
/// is a `PlainAuthKeyIdNonZero`; one whose declared length differs from the
/// number of bytes behind the header is a `LengthMismatch` of the two.
pub open spec fn parse_plain(bytes: Seq<u8>) -> Result<(i64, Seq<u8>), Error> {
    if bytes.len() < PLAIN_HEADER_LEN {
        Err(Error::LengthMismatch { expected: PLAIN_HEADER_LEN, found: bytes.len() as usize })
    } else if le_value(bytes.subrange(0, 8)) != 0 {
        Err(Error::PlainAuthKeyIdNonZero { found: le_value(bytes.subrange(0, 8)) as u64 })
    } else if le_value(bytes.subrange(16, 20)) != bytes.len() - PLAIN_HEADER_LEN {
        Err(
            Error::LengthMismatch {
                expected: le_value(bytes.subrange(16, 20)) as usize,
                found: (bytes.len() - PLAIN_HEADER_LEN) as usize,
            },
        )
    } else {
        Ok((i64_value(bytes.subrange(8, 16)), bytes.skip(PLAIN_HEADER_LEN as int)))
    }
}

/// Unwrapping a wrapped unauthenticated message gives the id and the body back.
pub proof fn lemma_plain_round_trip(message_id: i64, body: Seq<u8>)
    requires
        body.len() <= MAX_BODY_LEN,
    ensures
        parse_plain(plain_envelope(message_id, body)) == Ok::<(i64, Seq<u8>), Error>(
            (message_id, body),
        ),
{
    let bytes = plain_envelope(message_id, body);
    lemma_le_bytes_len(0, 8);
    lemma_le_bytes_len(body.len(), 4);
    lemma_i64_round_trip(message_id);
    lemma_pow256_values();
    lemma_le_value_of_bytes(0, 8);
    lemma_le_value_of_bytes(body.len(), 4);
    assert(bytes.subrange(0, 8) =~= le_bytes(0, 8));
    assert(bytes.subrange(8, 16) =~= i64_bytes(message_id));
    assert(bytes.subrange(16, 20) =~= le_bytes(body.len(), 4));
    assert(bytes.skip(PLAIN_HEADER_LEN as int) =~= body);
}

impl MessagePlain {
    /// Wraps the message into its envelope, or fails with `MessageTooLong`
    /// when the body is longer than the length field can say.
    pub fn to_bytes(&self) -> (r: Result<Vec<u8>, Error>)
        ensures
            self.body@.len() <= MAX_BODY_LEN ==> r is Ok && r->Ok_0@ == plain_envelope(
                self.message_id,
                self.body@,
            ),
            self.body@.len() > MAX_BODY_LEN ==> r == Err::<Vec<u8>, Error>(
                Error::MessageTooLong(self.body@.len() as usize),
            ),
    {
        if self.body.len() > MAX_BODY_LEN {
            return Err(Error::MessageTooLong(self.body.len()));
        }
        let mut out: Vec<u8> = Vec::new();
        let zero = u64_le(0);
        append_bytes(&mut out, zero.as_slice());
        push_i64(&mut out, self.message_id);
        let len = u32_le(self.body.len() as u32);
        append_bytes(&mut out, len.as_slice());
        append_bytes(&mut out, self.body.as_slice());
        assert(out@ =~= plain_envelope(self.message_id, self.body@));
        Ok(out)
    }

    /// Unwraps an envelope.
    pub fn from_bytes(bytes: &[u8]) -> (r: Result<MessagePlain, Error>)
        ensures
            match parse_plain(bytes@) {
                Ok((message_id, body)) => r is Ok && r->Ok_0.message_id == message_id
                    && r->Ok_0.body@ == body,
                Err(e) => r is Err && r->Err_0 == e,
            },
    {
        if bytes.len() < PLAIN_HEADER_LEN {
            return Err(Error::LengthMismatch { expected: PLAIN_HEADER_LEN, found: bytes.len() });
        }
        let key_id = u64_from_le(bytes);
        if key_id != 0 {
            return Err(Error::PlainAuthKeyIdNonZero { found: key_id });
        }
        let declared = u32_at(bytes, 16);
        if declared as usize != bytes.len() - PLAIN_HEADER_LEN {
            return Err(
                Error::LengthMismatch {
                    expected: declared as usize,
                    found: bytes.len() - PLAIN_HEADER_LEN,
                },
            );
        }
        let message_id = i64_at(bytes, 8);
        let body = copy_range(bytes, PLAIN_HEADER_LEN, bytes.len());
        assert(body@ =~= bytes@.skip(PLAIN_HEADER_LEN as int));
        Ok(MessagePlain { message_id, body })
    }
}

} // verus!
