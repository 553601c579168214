//! The envelope of an authenticated message: the id of the authorization
//! key, the message key, and the encrypted content.

use crate::crypto::aes::aes_ige_decrypt;
use crate::crypto::aes::aes_ige_encrypt;
use crate::crypto::aes::aes_ige_output;
use crate::crypto::aes::is_ciphertext;
use crate::crypto::hash::sha1;
use crate::crypto::hash::sha1_digest;
use crate::crypto::hash::sha256;
use crate::crypto::hash::sha256_digest;
use crate::crypto::random::random_bytes;
use crate::error::Error;
use crate::protocol::ProtocolVersion;
use crate::tl::message::i64_at;
use crate::tl::message::i64_bytes;
use crate::tl::message::i64_value;
use crate::tl::message::lemma_i64_round_trip;
use crate::tl::message::push_i64;
use crate::tl::message::u32_at;
use crate::tl::message::Message;
use crate::tl::message::MAX_BODY_LEN;
use crate::tl::parsing::append_bytes;
use crate::tl::parsing::copy_range;
use crate::tl::parsing::le_bytes;
use crate::tl::parsing::le_value;
use crate::tl::parsing::lemma_le_bytes_len;
use crate::tl::parsing::lemma_le_value_of_bytes;
use crate::tl::parsing::lemma_pow256_values;
use crate::tl::parsing::u32_le;
use vstd::prelude::*;

verus! {

/// Length of what stands in front of the encrypted content: the key id and
/// the message key.
pub const OUTER_HEADER_LEN: usize = 24;

/// Length of what stands in front of the body inside the encrypted content:
/// salt, session id, message id, sequence number and body length.
pub const INNER_HEADER_LEN: usize = 32;

/// The least padding that is added behind the body.
pub const MIN_PADDING: usize = 12;

/// The most padding that is accepted behind the body.
pub const MAX_PADDING: usize = 1024;

/// Which way a message travels. The keys of the two ways are taken from
/// different parts of the authorization key.
#[derive(Clone, Copy, Debug, PartialEq, Eq, Structural)]
pub enum Direction {
    ToServer,
    FromServer,
}

/// What an authenticated message holds, as mathematical values.
pub ghost struct MessageView {
    pub salt: i64,
    pub session_id: i64,
    pub message_id: i64,
    pub seq_no: u32,
    pub body: Seq<u8>,
}

impl View for Message {
    type V = MessageView;

    open spec fn view(&self) -> MessageView {
        MessageView {
            salt: self.salt,
            session_id: self.session_id,
            message_id: self.message_id,
            seq_no: self.seq_no,
            body: self.body@,
        }
    }
}

/// The `len` bytes of `s` from `from` on.
pub open spec fn piece(s: Seq<u8>, from: int, len: nat) -> Seq<u8> {
    Seq::new(len, |i: int| s[from + i])
}

/// How far into the authorization key the parts for a direction lie.
pub open spec fn key_shift(direction: Direction) -> int {
    match direction {
        Direction::ToServer => 0,
        Direction::FromServer => 8,
    }
}

/// The id of an authorization key: the low 64 bits of its SHA-1 digest.
pub open spec fn auth_key_id(key: Seq<u8>) -> Seq<u8> {
    piece(sha1_digest(key), 12, 8)
}

/// The content of a message before padding and encryption.
pub open spec fn inner_block(m: MessageView) -> Seq<u8> {
    i64_bytes(m.salt) + i64_bytes(m.session_id) + i64_bytes(m.message_id) + le_bytes(
        m.seq_no as nat,
        4,
    ) + le_bytes(m.body.len(), 4) + m.body
}

/// The least padding that brings a content of `inner_len` bytes up to a
/// whole number of cipher blocks.
pub open spec fn padding_len(inner_len: nat) -> nat {
    (12 + (16 - (inner_len + 12) % 16) % 16) as nat
}

/// Whether a padding of `padding` bytes may follow a content of `inner_len`
/// bytes when a message is wrapped.
pub open spec fn valid_padding(inner_len: nat, padding: nat) -> bool {
    MIN_PADDING <= padding <= MAX_PADDING && (inner_len + padding) % 16 == 0
}

/// The least padding that is accepted when a message is unwrapped.
pub open spec fn min_padding(version: ProtocolVersion) -> int {
    match version {
        ProtocolVersion::V1 => 0,
        ProtocolVersion::V2 => 12,
    }
}

/// The message key: in version 1 the low 128 bits of the SHA-1 digest of
/// the content without padding; in version 2 the middle 128 bits of the
/// SHA-256 digest of 32 bytes of the authorization key and the padded
/// content.
pub open spec fn msg_key(
    key: Seq<u8>,
    version: ProtocolVersion,
    direction: Direction,
    inner: Seq<u8>,
    padding: Seq<u8>,
) -> Seq<u8> {
    match version {
        ProtocolVersion::V1 => piece(sha1_digest(inner), 4, 16),
        ProtocolVersion::V2 => piece(
            sha256_digest(piece(key, 88 + key_shift(direction), 32) + inner + padding),
            8,
            16,
        ),
    }
}

/// The cipher key for a message key.
pub open spec fn aes_key(
    key: Seq<u8>,
    version: ProtocolVersion,
    direction: Direction,
    mk: Seq<u8>,
) -> Seq<u8> {
    let x = key_shift(direction);
    match version {
        ProtocolVersion::V1 => {
            let a = sha1_digest(mk + piece(key, x, 32));
            let b = sha1_digest(piece(key, 32 + x, 16) + mk + piece(key, 48 + x, 16));
            let c = sha1_digest(piece(key, 64 + x, 32) + mk);
            piece(a, 0, 8) + piece(b, 8, 12) + piece(c, 4, 12)
        },
        ProtocolVersion::V2 => {
            let a = sha256_digest(mk + piece(key, x, 36));
            let b = sha256_digest(piece(key, 40 + x, 36) + mk);
            piece(a, 0, 8) + piece(b, 8, 16) + piece(a, 24, 8)
        },
    }
}

/// The initialization vector for a message key.
pub open spec fn aes_iv(
    key: Seq<u8>,
    version: ProtocolVersion,
    direction: Direction,
    mk: Seq<u8>,
) -> Seq<u8> {
    let x = key_shift(direction);
    match version {
        ProtocolVersion::V1 => {
            let a = sha1_digest(mk + piece(key, x, 32));
            let b = sha1_digest(piece(key, 32 + x, 16) + mk + piece(key, 48 + x, 16));
            let c = sha1_digest(piece(key, 64 + x, 32) + mk);
            let d = sha1_digest(mk + piece(key, 96 + x, 32));
            piece(a, 8, 12) + piece(b, 0, 8) + piece(c, 16, 4) + piece(d, 0, 8)
        },
        ProtocolVersion::V2 => {
            let a = sha256_digest(mk + piece(key, x, 36));
            let b = sha256_digest(piece(key, 40 + x, 36) + mk);
            piece(b, 0, 8) + piece(a, 8, 16) + piece(b, 24, 8)
        },
    }
}

/// Whether `bytes` is the envelope of `m` with the given padding: the key
/// id, the message key, and the padded content encrypted under the keys
/// that the message key gives.
pub open spec fn is_sealed(
    key: Seq<u8>,
    version: ProtocolVersion,
    direction: Direction,
    m: MessageView,
    padding: Seq<u8>,
    bytes: Seq<u8>,
) -> bool {
    let inner = inner_block(m);
    let mk = msg_key(key, version, direction, inner, padding);
    exists|cipher: Seq<u8>|
        #![trigger is_ciphertext(
            aes_key(key, version, direction, mk),
            aes_iv(key, version, direction, mk),
            inner + padding,
            cipher,
        )]
        is_ciphertext(
            aes_key(key, version, direction, mk),
            aes_iv(key, version, direction, mk),
            inner + padding,
            cipher,
        ) && bytes == auth_key_id(key) + mk + cipher
}

/// What a decrypted content holds. The padding is what follows the body
/// that the content declares; a content shorter than its header, a body
/// that does not fit, and a padding out of range are a `BadInnerLength`; a
/// message key that does not belong to the content is a `MsgKeyMismatch`.
pub open spec fn opened_plain(
    plain: Seq<u8>,
    mk: Seq<u8>,
    key: Seq<u8>,
    version: ProtocolVersion,
    direction: Direction,
) -> Result<MessageView, Error> {
    if plain.len() < INNER_HEADER_LEN {
        Err(Error::BadInnerLength)
    } else {
        let declared = le_value(plain.subrange(28, 32)) as int;
        let padding = plain.len() - INNER_HEADER_LEN - declared;
        if padding < min_padding(version) || padding > MAX_PADDING {
            Err(Error::BadInnerLength)
        } else if mk != msg_key(
            key,
            version,
            direction,
            plain.take(INNER_HEADER_LEN + declared),
            plain.skip(INNER_HEADER_LEN + declared),
        ) {
            Err(Error::MsgKeyMismatch)
        } else {
            Ok(
                MessageView {
                    salt: i64_value(plain.subrange(0, 8)),
                    session_id: i64_value(plain.subrange(8, 16)),
                    message_id: i64_value(plain.subrange(16, 24)),
                    seq_no: le_value(plain.subrange(24, 28)) as u32,
                    body: plain.subrange(32, 32 + declared),
                },
            )
        }
    }
}

/// What an envelope holds. An envelope that is too short for its headers or
/// whose content is not a whole number of cipher blocks is a
/// `BadInnerLength`; one that names another key is an `AuthKeyIdMismatch`
/// of the two key ids, read as numbers least significant byte first.
pub open spec fn opened(
    bytes: Seq<u8>,
    key: Seq<u8>,
    version: ProtocolVersion,
    direction: Direction,
) -> Result<MessageView, Error> {
    if bytes.len() < OUTER_HEADER_LEN + INNER_HEADER_LEN || (bytes.len() - OUTER_HEADER_LEN) % 16
        != 0 {
        Err(Error::BadInnerLength)
    } else if bytes.take(8) != auth_key_id(key) {
        Err(
            Error::AuthKeyIdMismatch {
                expected: le_value(auth_key_id(key)) as u64,
                found: le_value(bytes.take(8)) as u64,
            },
        )
    } else {
        let mk = bytes.subrange(8, 24);
        opened_plain(
            aes_ige_output(
                aes_key(key, version, direction, mk),
                aes_iv(key, version, direction, mk),
                bytes.skip(24),
                false,
            ),
            mk,
            key,
            version,
            direction,
        )
    }
}

/// The content of a message has its header and its body.
pub proof fn lemma_inner_block_len(m: MessageView)
    ensures
        inner_block(m).len() == INNER_HEADER_LEN + m.body.len(),
{
    lemma_i64_round_trip(m.salt);
    lemma_i64_round_trip(m.session_id);
    lemma_i64_round_trip(m.message_id);
    lemma_le_bytes_len(m.seq_no as nat, 4);
    lemma_le_bytes_len(m.body.len(), 4);
}

/// A padded content whose message key is right holds the message it was
/// made of.
pub proof fn lemma_opened_plain(
    m: MessageView,
    padding: Seq<u8>,
    key: Seq<u8>,
    version: ProtocolVersion,
    direction: Direction,
)
    requires
        m.body.len() <= MAX_BODY_LEN,
        MIN_PADDING <= padding.len() <= MAX_PADDING,
    ensures
        opened_plain(
            inner_block(m) + padding,
            msg_key(key, version, direction, inner_block(m), padding),
            key,
            version,
            direction,
        ) == Ok::<MessageView, Error>(m),
{
    let inner = inner_block(m);
    let plain = inner + padding;
    lemma_inner_block_len(m);
    lemma_i64_round_trip(m.salt);
    lemma_i64_round_trip(m.session_id);
    lemma_i64_round_trip(m.message_id);
    lemma_le_bytes_len(m.seq_no as nat, 4);
    lemma_le_bytes_len(m.body.len(), 4);
    lemma_le_value_of_bytes(m.seq_no as nat, 4);
    lemma_le_value_of_bytes(m.body.len(), 4);
    lemma_pow256_values();
    assert(plain.subrange(0, 8) =~= i64_bytes(m.salt));
    assert(plain.subrange(8, 16) =~= i64_bytes(m.session_id));
    assert(plain.subrange(16, 24) =~= i64_bytes(m.message_id));
    assert(plain.subrange(24, 28) =~= le_bytes(m.seq_no as nat, 4));
    assert(plain.subrange(28, 32) =~= le_bytes(m.body.len(), 4));
    let declared = m.body.len() as int;
    assert(plain.subrange(32, 32 + declared) =~= m.body);
    assert(plain.take(INNER_HEADER_LEN + declared) =~= inner);
    assert(plain.skip(INNER_HEADER_LEN + declared) =~= padding);
}

/// A copy of the `len` bytes of `src` from `from` on.
fn take_piece(src: &[u8], from: usize, len: usize) -> (out: Vec<u8>)
    requires
        from + len <= src@.len(),
    ensures
        out@ == piece(src@, from as int, len as nat),
        out@.len() == len,
{
    let total = src.len();
    let out = copy_range(src, from, from + len);
    assert(out@ =~= piece(src@, from as int, len as nat));
    out
}

/// How far into the authorization key the parts for a direction lie.
fn shift_of(direction: Direction) -> (x: usize)
    ensures
        x == key_shift(direction),
{
    match direction {
        Direction::ToServer => 0,
        Direction::FromServer => 8,
    }
}

/// Computes the message key of a padded content.
pub fn message_key(
    key: &[u8; 256],
    version: ProtocolVersion,
    direction: Direction,
    inner: &[u8],
    padding: &[u8],
) -> (mk: Vec<u8>)
    ensures
        mk@ == msg_key(key@, version, direction, inner@, padding@),
        mk@.len() == 16,
{
    match version {
        ProtocolVersion::V1 => {
            let digest = sha1(inner);
            take_piece(digest.as_slice(), 4, 16)
        },
        ProtocolVersion::V2 => {
            let mut input = take_piece(key.as_slice(), 88 + shift_of(direction), 32);
            append_bytes(&mut input, inner);
            append_bytes(&mut input, padding);
            let digest = sha256(input.as_slice());
            take_piece(digest.as_slice(), 8, 16)
        },
    }
}

/// Derives the cipher key and the initialization vector from a message key.
pub fn cipher_params(
    key: &[u8; 256],
    version: ProtocolVersion,
    direction: Direction,
    mk: &[u8],
) -> (params: (Vec<u8>, Vec<u8>))
    ensures
        params.0@ == aes_key(key@, version, direction, mk@),
        params.1@ == aes_iv(key@, version, direction, mk@),
        params.0@.len() == 32,
        params.1@.len() == 32,
{
    let x = shift_of(direction);
    let key = key.as_slice();
    match version {
        ProtocolVersion::V1 => {
            let mut in_a: Vec<u8> = Vec::new();
            append_bytes(&mut in_a, mk);
            append_bytes(&mut in_a, take_piece(key, x, 32).as_slice());
            let a = sha1(in_a.as_slice());
            let mut in_b = take_piece(key, 32 + x, 16);
            append_bytes(&mut in_b, mk);
            append_bytes(&mut in_b, take_piece(key, 48 + x, 16).as_slice());
            let b = sha1(in_b.as_slice());
            let mut in_c = take_piece(key, 64 + x, 32);
            append_bytes(&mut in_c, mk);
            let c = sha1(in_c.as_slice());
            let mut in_d: Vec<u8> = Vec::new();
            append_bytes(&mut in_d, mk);
            append_bytes(&mut in_d, take_piece(key, 96 + x, 32).as_slice());
            let d = sha1(in_d.as_slice());
            assert(in_a@ =~= mk@ + piece(key@, x as int, 32));
            assert(in_d@ =~= mk@ + piece(key@, 96 + x, 32));
            let mut aes_key = take_piece(a.as_slice(), 0, 8);
            append_bytes(&mut aes_key, take_piece(b.as_slice(), 8, 12).as_slice());
            append_bytes(&mut aes_key, take_piece(c.as_slice(), 4, 12).as_slice());
            let mut aes_iv = take_piece(a.as_slice(), 8, 12);
            append_bytes(&mut aes_iv, take_piece(b.as_slice(), 0, 8).as_slice());
            append_bytes(&mut aes_iv, take_piece(c.as_slice(), 16, 4).as_slice());
            append_bytes(&mut aes_iv, take_piece(d.as_slice(), 0, 8).as_slice());
            (aes_key, aes_iv)
        },
        ProtocolVersion::V2 => {
            let mut in_a: Vec<u8> = Vec::new();
            append_bytes(&mut in_a, mk);
            append_bytes(&mut in_a, take_piece(key, x, 36).as_slice());
            let a = sha256(in_a.as_slice());
            let mut in_b = take_piece(key, 40 + x, 36);
            append_bytes(&mut in_b, mk);
            let b = sha256(in_b.as_slice());
            assert(in_a@ =~= mk@ + piece(key@, x as int, 36));
            let mut aes_key = take_piece(a.as_slice(), 0, 8);
            append_bytes(&mut aes_key, take_piece(b.as_slice(), 8, 16).as_slice());
            append_bytes(&mut aes_key, take_piece(a.as_slice(), 24, 8).as_slice());
            let mut aes_iv = take_piece(b.as_slice(), 0, 8);
            append_bytes(&mut aes_iv, take_piece(a.as_slice(), 8, 16).as_slice());
            append_bytes(&mut aes_iv, take_piece(b.as_slice(), 24, 8).as_slice());
            (aes_key, aes_iv)
        },
    }
}

/// Computes the id of an authorization key.
pub fn key_id(key: &[u8; 256]) -> (id: Vec<u8>)
    ensures
        id@ == auth_key_id(key@),
        id@.len() == 8,
{
    let digest = sha1(key.as_slice());
    take_piece(digest.as_slice(), 12, 8)
}

/// Whether two runs of bytes are equal.
pub fn bytes_equal(a: &[u8], b: &[u8]) -> (equal: bool)
    ensures
        equal == (a@ == b@),
{
    if a.len() != b.len() {
        return false;
    }
    let mut i: usize = 0;
    while i < a.len()
        invariant
            i <= a.len(),
            a@.len() == b@.len(),
            a@.take(i as int) == b@.take(i as int),
        decreases a.len() - i,
    {
        if a[i] != b[i] {
            return false;
        }
        i += 1;
        assert(a@.take(i as int) =~= a@.take(i - 1).push(a@[i - 1]));
        assert(b@.take(i as int) =~= b@.take(i - 1).push(b@[i - 1]));
    }
    assert(a@ =~= a@.take(a@.len() as int));
    assert(b@ =~= b@.take(b@.len() as int));
    true
}

impl Message {
    /// The content of the message before padding and encryption.
    pub fn inner_bytes(&self) -> (r: Result<Vec<u8>, Error>)
        ensures
            self@.body.len() <= MAX_BODY_LEN ==> r is Ok && r->Ok_0@ == inner_block(self@),
            self@.body.len() > MAX_BODY_LEN ==> r == Err::<Vec<u8>, Error>(
                Error::MessageTooLong(self@.body.len() as usize),
            ),
    {
        if self.body.len() > MAX_BODY_LEN {
            return Err(Error::MessageTooLong(self.body.len()));
        }
        let mut out: Vec<u8> = Vec::new();
        push_i64(&mut out, self.salt);
        push_i64(&mut out, self.session_id);
        push_i64(&mut out, self.message_id);
        append_bytes(&mut out, u32_le(self.seq_no).as_slice());
        append_bytes(&mut out, u32_le(self.body.len() as u32).as_slice());
        append_bytes(&mut out, self.body.as_slice());
        assert(out@ =~= inner_block(self@));
        Ok(out)
    }

    /// Wraps the message into its envelope with the given padding. A body
    /// longer than the length field can say is refused with
    /// `MessageTooLong`; a padding of less than 12 or more than 1024 bytes,
    /// or one that does not bring the content up to a whole number of
    /// cipher blocks, with `BadInnerLength`.
    pub fn seal(
        &self,
        key: &[u8; 256],
        version: ProtocolVersion,
        direction: Direction,
        padding: &[u8],
    ) -> (r: Result<Vec<u8>, Error>)
        ensures
            self@.body.len() > MAX_BODY_LEN ==> r == Err::<Vec<u8>, Error>(
                Error::MessageTooLong(self@.body.len() as usize),
            ),
            self@.body.len() <= MAX_BODY_LEN && !valid_padding(
                inner_block(self@).len(),
                padding@.len(),
            ) ==> r == Err::<Vec<u8>, Error>(Error::BadInnerLength),
            self@.body.len() <= MAX_BODY_LEN && valid_padding(
                inner_block(self@).len(),
                padding@.len(),
            ) ==> r is Ok && is_sealed(key@, version, direction, self@, padding@, r->Ok_0@),
    {
        let inner = match self.inner_bytes() {
            Ok(inner) => inner,
            Err(e) => {
                return Err(e);
            },
        };
        proof {
            lemma_inner_block_len(self@);
        }
        if padding.len() < MIN_PADDING || padding.len() > MAX_PADDING || (inner.len() as u64
            + padding.len() as u64) % 16 != 0 {
            return Err(Error::BadInnerLength);
        }
        let mk = message_key(key, version, direction, inner.as_slice(), padding);
        let (aes_key, aes_iv) = cipher_params(key, version, direction, mk.as_slice());
        let mut plain = inner;
        append_bytes(&mut plain, padding);
        let cipher = match aes_ige_encrypt(aes_key.as_slice(), aes_iv.as_slice(), plain.as_slice()) {
            Ok(cipher) => cipher,
            Err(e) => {
                return Err(e);
            },
        };
        let mut out = key_id(key);
        append_bytes(&mut out, mk.as_slice());
        append_bytes(&mut out, cipher.as_slice());
        Ok(out)
    }

    /// Wraps the message into its envelope behind the least random padding
    /// that the format allows.
    pub fn to_bytes(&self, key: &[u8; 256], version: ProtocolVersion, direction: Direction) -> (r:
        Result<Vec<u8>, Error>)
        ensures
            self@.body.len() > MAX_BODY_LEN ==> r == Err::<Vec<u8>, Error>(
                Error::MessageTooLong(self@.body.len() as usize),
            ),
            self@.body.len() <= MAX_BODY_LEN ==> r is Ok && exists|padding: Seq<u8>|
                padding.len() == padding_len(inner_block(self@).len()) && #[trigger] is_sealed(
                    key@,
                    version,
                    direction,
                    self@,
                    padding,
                    r->Ok_0@,
                ),
    {
        if self.body.len() > MAX_BODY_LEN {
            return Err(Error::MessageTooLong(self.body.len()));
        }
        proof {
            lemma_inner_block_len(self@);
        }
        let inner_len: u64 = 32 + self.body.len() as u64;
        let pad: u64 = 12 + (16 - (inner_len + 12) % 16) % 16;
        let padding = random_bytes(pad as usize);
        self.seal(key, version, direction, padding.as_slice())
    }

    /// Reads a message out of a decrypted content and checks the message
    /// key `mk` against it.
    pub fn open_plain(
        plain: &[u8],
        mk: &[u8],
        key: &[u8; 256],
        version: ProtocolVersion,
        direction: Direction,
    ) -> (r: Result<Message, Error>)
        ensures
            match opened_plain(plain@, mk@, key@, version, direction) {
                Ok(m) => r is Ok && r->Ok_0@ == m,
                Err(e) => r is Err && r->Err_0 == e,
            },
    {
        if plain.len() < INNER_HEADER_LEN {
            return Err(Error::BadInnerLength);
        }
        let declared = u32_at(plain, 28) as usize;
        let room = plain.len() - INNER_HEADER_LEN;
        let least: usize = match version {
            ProtocolVersion::V1 => 0,
            ProtocolVersion::V2 => 12,
        };
        if declared > room || room - declared < least || room - declared > MAX_PADDING {
            return Err(Error::BadInnerLength);
        }
        let inner = vstd::slice::slice_subrange(plain, 0, INNER_HEADER_LEN + declared);
        let padding = vstd::slice::slice_subrange(plain, INNER_HEADER_LEN + declared, plain.len());
        assert(inner@ =~= plain@.take(INNER_HEADER_LEN + declared));
        assert(padding@ =~= plain@.skip(INNER_HEADER_LEN + declared));
        let expected = message_key(key, version, direction, inner, padding);
        if !bytes_equal(mk, expected.as_slice()) {
            return Err(Error::MsgKeyMismatch);
        }
        Ok(
            Message {
                salt: i64_at(plain, 0),
                session_id: i64_at(plain, 8),
                message_id: i64_at(plain, 16),
                seq_no: u32_at(plain, 24),
                body: copy_range(plain, INNER_HEADER_LEN, INNER_HEADER_LEN + declared),
            },
        )
    }

    /// Unwraps an envelope. The envelope of a message comes back as that
    /// message, whatever its padding was.
    pub fn from_bytes(
        bytes: &[u8],
        key: &[u8; 256],
        version: ProtocolVersion,
        direction: Direction,
    ) -> (r: Result<Message, Error>)
        ensures
            match opened(bytes@, key@, version, direction) {
                Ok(m) => r is Ok && r->Ok_0@ == m,
                Err(e) => r is Err && r->Err_0 == e,
            },
            forall|m: MessageView, padding: Seq<u8>|
                m.body.len() <= MAX_BODY_LEN && valid_padding(inner_block(m).len(), padding.len())
                    && #[trigger] is_sealed(key@, version, direction, m, padding, bytes@) ==> r
                    is Ok && r->Ok_0@ == m,
    {
        let id = key_id(key);
        if bytes.len() < OUTER_HEADER_LEN + INNER_HEADER_LEN || (bytes.len() - OUTER_HEADER_LEN)
            % 16 != 0 {
            proof {
                assert forall|m: MessageView, padding: Seq<u8>|
                    m.body.len() <= MAX_BODY_LEN && valid_padding(
                        inner_block(m).len(),
                        padding.len(),
                    ) && #[trigger] is_sealed(key@, version, direction, m, padding, bytes@)
                    implies false by {
                    lemma_sealed_len(key@, version, direction, m, padding, bytes@);
                }
            }
            return Err(Error::BadInnerLength);
        }
        let named = vstd::slice::slice_subrange(bytes, 0, 8);
        assert(named@ =~= bytes@.take(8));
        if !bytes_equal(named, id.as_slice()) {
            proof {
                assert forall|m: MessageView, padding: Seq<u8>|
                    m.body.len() <= MAX_BODY_LEN && valid_padding(
                        inner_block(m).len(),
                        padding.len(),
                    ) && #[trigger] is_sealed(key@, version, direction, m, padding, bytes@)
                    implies false by {
                    lemma_sealed_len(key@, version, direction, m, padding, bytes@);
                }
            }
            assert(named@.subrange(0, 8) =~= named@);
            assert(id@.subrange(0, 8) =~= id@);
            return Err(
                Error::AuthKeyIdMismatch {
                    expected: crate::tl::parsing::u64_from_le(id.as_slice()),
                    found: crate::tl::parsing::u64_from_le(named),
                },
            );
        }
        let mk = vstd::slice::slice_subrange(bytes, 8, 24);
        let cipher = vstd::slice::slice_subrange(bytes, 24, bytes.len());
        assert(cipher@ =~= bytes@.skip(24));
        let (aes_key, aes_iv) = cipher_params(key, version, direction, mk);
        let plain = match aes_ige_decrypt(aes_key.as_slice(), aes_iv.as_slice(), cipher) {
            Ok(plain) => plain,
            Err(e) => {
                return Err(e);
            },
        };
        let r = Message::open_plain(plain.as_slice(), mk, key, version, direction);
        proof {
            assert forall|m: MessageView, padding: Seq<u8>|
                m.body.len() <= MAX_BODY_LEN && valid_padding(inner_block(m).len(), padding.len())
                    && #[trigger] is_sealed(
                    key@,
                    version,
                    direction,
                    m,
                    padding,
                    bytes@,
                ) implies r is Ok && r->Ok_0@ == m by {
                lemma_sealed_len(key@, version, direction, m, padding, bytes@);
                let sealed_mk = msg_key(key@, version, direction, inner_block(m), padding);
                assert(mk@ =~= sealed_mk);
                assert(is_ciphertext(aes_key@, aes_iv@, inner_block(m) + padding, cipher@));
                lemma_opened_plain(m, padding, key@, version, direction);
            }
        }
        r
    }
}

/// An envelope is as long as its two headers, the body and the padding,
/// it starts with the key id, and the message key and the encrypted content
/// follow.
pub proof fn lemma_sealed_len(
    key: Seq<u8>,
    version: ProtocolVersion,
    direction: Direction,
    m: MessageView,
    padding: Seq<u8>,
    bytes: Seq<u8>,
)
    requires
        is_sealed(key, version, direction, m, padding, bytes),
    ensures
        bytes.len() == OUTER_HEADER_LEN + INNER_HEADER_LEN + m.body.len() + padding.len(),
        bytes.take(8) == auth_key_id(key),
        bytes.subrange(8, 24) == msg_key(key, version, direction, inner_block(m), padding),
        is_ciphertext(
            aes_key(
                key,
                version,
                direction,
                msg_key(key, version, direction, inner_block(m), padding),
            ),
            aes_iv(
                key,
                version,
                direction,
                msg_key(key, version, direction, inner_block(m), padding),
            ),
            inner_block(m) + padding,
            bytes.skip(24),
        ),
{
    let inner = inner_block(m);
    let mk = msg_key(key, version, direction, inner, padding);
    let k = aes_key(key, version, direction, mk);
    let iv = aes_iv(key, version, direction, mk);
    let cipher = choose|cipher: Seq<u8>|
        #![trigger is_ciphertext(k, iv, inner + padding, cipher)]
        is_ciphertext(k, iv, inner + padding, cipher) && bytes == auth_key_id(key) + mk + cipher;
    lemma_inner_block_len(m);
    assert(bytes.take(8) =~= auth_key_id(key));
    assert(bytes.subrange(8, 24) =~= mk);
    assert(bytes.skip(24) =~= cipher);
}

} // verus!
