//! What the handshake derives from its nonces: the temporary cipher key,
//! the hashes that confirm the new key, and the first salt.

use crate::crypto::hash::sha1;
use crate::crypto::hash::sha1_digest;
use crate::tl::envelope::piece;
use crate::tl::parsing::append_bytes;
use crate::tl::parsing::copy_range;
use crate::tl::parsing::le_bytes;
use crate::tl::parsing::le_value;
use crate::tl::parsing::lemma_le_value_bound;
use crate::tl::parsing::lemma_pow256_values;
use crate::tl::parsing::u128_from_le;
use crate::tl::parsing::u128_le;
use crate::tl::parsing::u64_from_le;
use crate::tl::primitive::lemma_pow2_values;
use crate::tl::primitive::to_signed;
use vstd::prelude::*;

verus! {

/// A block with the SHA-1 digest of its content in front and padding
/// behind.
pub open spec fn with_hash(data: Seq<u8>, padding: Seq<u8>) -> Seq<u8> {
    piece(sha1_digest(data), 0, 20) + data + padding
}

/// Puts the SHA-1 digest of `data` in front of it and `padding` behind.
pub fn add_hash(data: &[u8], padding: &[u8]) -> (block: Vec<u8>)
    ensures
        block@ == with_hash(data@, padding@),
        block@.len() == 20 + data@.len() + padding@.len(),
{
    let mut block = sha1(data);
    assert(block@ =~= piece(sha1_digest(data@), 0, 20));
    append_bytes(&mut block, data);
    append_bytes(&mut block, padding);
    block
}

/// The key under which the two sides encrypt their shares of the key
/// exchange.
pub open spec fn tmp_aes_key(new_nonce: Seq<u8>, server_nonce: u128) -> Seq<u8> {
    let sn = le_bytes(server_nonce as nat, 16);
    piece(sha1_digest(new_nonce + sn), 0, 20) + piece(sha1_digest(sn + new_nonce), 0, 12)
}

/// The initialization vector that goes with the temporary key.
pub open spec fn tmp_aes_iv(new_nonce: Seq<u8>, server_nonce: u128) -> Seq<u8> {
    let sn = le_bytes(server_nonce as nat, 16);
    piece(sha1_digest(sn + new_nonce), 12, 8) + piece(sha1_digest(new_nonce + new_nonce), 0, 20)
        + piece(new_nonce, 0, 4)
}

/// Derives the temporary key and its initialization vector.
pub fn tmp_aes_params(new_nonce: &[u8; 32], server_nonce: u128) -> (params: (Vec<u8>, Vec<u8>))
    ensures
        params.0@ == tmp_aes_key(new_nonce@, server_nonce),
        params.1@ == tmp_aes_iv(new_nonce@, server_nonce),
        params.0@.len() == 32,
        params.1@.len() == 32,
{
    let nn = new_nonce.as_slice();
    let sn = u128_le(server_nonce);
    let mut in_a: Vec<u8> = Vec::new();
    append_bytes(&mut in_a, nn);
    append_bytes(&mut in_a, sn.as_slice());
    let a = sha1(in_a.as_slice());
    let mut in_b: Vec<u8> = Vec::new();
    append_bytes(&mut in_b, sn.as_slice());
    append_bytes(&mut in_b, nn);
    let b = sha1(in_b.as_slice());
    let mut in_c: Vec<u8> = Vec::new();
    append_bytes(&mut in_c, nn);
    append_bytes(&mut in_c, nn);
    let c = sha1(in_c.as_slice());
    assert(in_a@ =~= new_nonce@ + le_bytes(server_nonce as nat, 16));
    assert(in_b@ =~= le_bytes(server_nonce as nat, 16) + new_nonce@);
    assert(in_c@ =~= new_nonce@ + new_nonce@);
    let mut key = copy_range(a.as_slice(), 0, 20);
    append_bytes(&mut key, vstd::slice::slice_subrange(b.as_slice(), 0, 12));
    let mut iv = copy_range(b.as_slice(), 12, 20);
    append_bytes(&mut iv, c.as_slice());
    append_bytes(&mut iv, vstd::slice::slice_subrange(nn, 0, 4));
    assert(key@ =~= tmp_aes_key(new_nonce@, server_nonce));
    assert(iv@ =~= tmp_aes_iv(new_nonce@, server_nonce));
    (key, iv)
}

/// The hash by which the server confirms the outcome `number` of the key
/// exchange: the low 128 bits of the SHA-1 digest of the new nonce, the
/// number, and the first eight bytes of the digest of the new key.
pub open spec fn new_nonce_hash(new_nonce: Seq<u8>, number: u8, auth_key: Seq<u8>) -> u128 {
    le_value(
        piece(sha1_digest(new_nonce + seq![number] + piece(sha1_digest(auth_key), 0, 8)), 4, 16),
    ) as u128
}

/// Computes the hash by which the server confirms an outcome of the key
/// exchange.
pub fn nonce_hash(new_nonce: &[u8; 32], number: u8, auth_key: &[u8]) -> (hash: u128)
    ensures
        hash == new_nonce_hash(new_nonce@, number, auth_key@),
{
    let key_digest = sha1(auth_key);
    let mut input: Vec<u8> = Vec::new();
    append_bytes(&mut input, new_nonce.as_slice());
    input.push(number);
    append_bytes(&mut input, vstd::slice::slice_subrange(key_digest.as_slice(), 0, 8));
    assert(input@ =~= new_nonce@ + seq![number] + piece(sha1_digest(auth_key@), 0, 8));
    let digest = sha1(input.as_slice());
    let tail = vstd::slice::slice_subrange(digest.as_slice(), 4, 20);
    assert(tail@ =~= piece(sha1_digest(input@), 4, 16));
    assert(tail@.subrange(0, 16) =~= tail@);
    u128_from_le(tail)
}

/// The number of the attempt that is repeated: the first eight bytes of the
/// SHA-1 digest of the key of that attempt.
pub open spec fn aux_hash(auth_key: Seq<u8>) -> u64 {
    le_value(piece(sha1_digest(auth_key), 0, 8)) as u64
}

/// Computes the number under which an attempt is repeated.
pub fn key_aux_hash(auth_key: &[u8]) -> (hash: u64)
    ensures
        hash == aux_hash(auth_key@),
{
    let digest = sha1(auth_key);
    let head = vstd::slice::slice_subrange(digest.as_slice(), 0, 8);
    assert(head@ =~= piece(sha1_digest(auth_key@), 0, 8));
    assert(head@.subrange(0, 8) =~= head@);
    u64_from_le(head)
}

/// The first salt of a session: the first eight bytes of the new nonce
/// combined by exclusive or with the first eight bytes of the server nonce.
pub open spec fn first_salt(new_nonce: Seq<u8>, server_nonce: u128) -> i64 {
    let a = le_value(piece(new_nonce, 0, 8)) as u64;
    let b = (server_nonce as nat % 0x1_0000_0000_0000_0000) as u64;
    to_signed((a ^ b) as nat, 64) as i64
}

/// Computes the first salt of a session.
pub fn initial_salt(new_nonce: &[u8; 32], server_nonce: u128) -> (salt: i64)
    ensures
        salt == first_salt(new_nonce@, server_nonce),
{
    let head = vstd::slice::slice_subrange(new_nonce.as_slice(), 0, 8);
    assert(head@ =~= piece(new_nonce@, 0, 8));
    assert(head@.subrange(0, 8) =~= head@);
    let a = u64_from_le(head);
    let b: u64 = #[verifier::truncate] (server_nonce as u64);
    let mixed = a ^ b;
    let salt: i64 = #[verifier::truncate] (mixed as i64);
    proof {
        lemma_pow2_values();
        lemma_pow256_values();
        lemma_le_value_bound(piece(new_nonce@, 0, 8));
        assert(b as nat == server_nonce as nat % 0x1_0000_0000_0000_0000) by (bit_vector)
            requires
                b == server_nonce as u64,
        ;
        assert(salt as int == (if mixed < 0x8000_0000_0000_0000 {
            mixed as int
        } else {
            mixed - 0x1_0000_0000_0000_0000
        })) by (bit_vector)
            requires
                salt == mixed as i64,
        ;
    }
    salt
}

} // verus!
