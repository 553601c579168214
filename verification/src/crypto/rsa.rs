//! RSA as the handshake uses it: the raw power of a block modulo the
//! server's key, and the fingerprint by which a key is named.

use crate::crypto::hash::sha1;
use crate::crypto::hash::sha1_digest;
use crate::error::Error;
use crate::tl::envelope::piece;
use crate::tl::parsing::append_bytes;
use crate::tl::parsing::le_value;
use crate::tl::parsing::u64_from_le;
use vstd::arithmetic::power::pow;
use vstd::prelude::*;

verus! {

/// Length of the block that is encrypted for the server, in bytes.
pub const BLOCK_LEN: usize = 255;

/// Length of an encrypted block, in bytes.
pub const CIPHER_LEN: usize = 256;

/// The longest number that the big-number routines take, in bytes.
pub const MAX_NUMBER_LEN: usize = 0x7fff_ffff;

/// The number that `s` spells, most significant byte first.
pub open spec fn be_value(s: Seq<u8>) -> nat
    decreases s.len(),
{
    if s.len() == 0 {
        0
    } else {
        256 * be_value(s.drop_last()) + s.last() as nat
    }
}

/// The DER encoding of the PKCS#1 `RSAPublicKey` structure that holds the
/// modulus `n` and the exponent `e`, each given most significant byte first.
pub uninterp spec fn rsa_public_key_der(n: Seq<u8>, e: Seq<u8>) -> Seq<u8>;

/// A public key: modulus and exponent, most significant byte first.
#[derive(Debug)]
pub struct PublicKey {
    pub n: Vec<u8>,
    pub e: Vec<u8>,
}

/// A public key together with the fingerprint that names it.
#[derive(Debug)]
pub struct KnownKey {
    pub fingerprint: u64,
    pub key: PublicKey,
}

/// Raises `base` to the power `exponent` modulo `modulus` with
/// `openssl::bn::BigNum::mod_exp`. The numbers go in through
/// `BigNum::from_slice` and the result comes out through `to_vec`, most
/// significant byte first. `None` stands for an error of the outside
/// library. `from_slice` panics on more than 2^31 - 1 bytes.
#[verifier::external_body]
pub(crate) fn openssl_mod_exp(base: &[u8], exponent: &[u8], modulus: &[u8]) -> (r: Option<Vec<u8>>)
    requires
        base@.len() <= MAX_NUMBER_LEN,
        exponent@.len() <= MAX_NUMBER_LEN,
        modulus@.len() <= MAX_NUMBER_LEN,
    ensures
        r matches Some(v) ==> be_value(v@) == pow(be_value(base@) as int, be_value(exponent@)) % (
        be_value(modulus@) as int),
{
    let a = openssl::bn::BigNum::from_slice(base).ok()?;
    let p = openssl::bn::BigNum::from_slice(exponent).ok()?;
    let m = openssl::bn::BigNum::from_slice(modulus).ok()?;
    let mut ctx = openssl::bn::BigNumContext::new().ok()?;
    let mut out = openssl::bn::BigNum::new().ok()?;
    out.mod_exp(&a, &p, &m, &mut ctx).ok()?;
    Some(out.to_vec())
}

/// Encodes a public key with `openssl::rsa::Rsa::public_key_to_der_pkcs1`,
/// the key made by `Rsa::from_public_components` of numbers read by
/// `BigNum::from_slice`. `None` stands for an error of the outside library.
/// `from_slice` panics on more than 2^31 - 1 bytes.
#[verifier::external_body]
fn openssl_public_key_der(n: &[u8], e: &[u8]) -> (r: Option<Vec<u8>>)
    requires
        n@.len() <= MAX_NUMBER_LEN,
        e@.len() <= MAX_NUMBER_LEN,
    ensures
        r matches Some(der) ==> der@ == rsa_public_key_der(n@, e@),
{
    let n = openssl::bn::BigNum::from_slice(n).ok()?;
    let e = openssl::bn::BigNum::from_slice(e).ok()?;
    let key = openssl::rsa::Rsa::from_public_components(n, e).ok()?;
    key.public_key_to_der_pkcs1().ok()
}

/// Leading zero bytes do not change the number that bytes spell.
pub proof fn lemma_be_value_leading_zeros(zeros: nat, s: Seq<u8>)
    ensures
        be_value(Seq::new(zeros, |i: int| 0u8) + s) == be_value(s),
    decreases s.len(),
{
    let padded = Seq::new(zeros, |i: int| 0u8) + s;
    if s.len() == 0 {
        lemma_be_value_zeros(zeros);
        assert(padded =~= Seq::new(zeros, |i: int| 0u8));
    } else {
        assert(padded.drop_last() =~= Seq::new(zeros, |i: int| 0u8) + s.drop_last());
        assert(padded.last() == s.last());
        lemma_be_value_leading_zeros(zeros, s.drop_last());
    }
}

/// Zero bytes spell zero.
pub proof fn lemma_be_value_zeros(zeros: nat)
    ensures
        be_value(Seq::new(zeros, |i: int| 0u8)) == 0,
    decreases zeros,
{
    if zeros > 0 {
        let s = Seq::new(zeros, |i: int| 0u8);
        assert(s.drop_last() =~= Seq::new((zeros - 1) as nat, |i: int| 0u8));
        lemma_be_value_zeros((zeros - 1) as nat);
    }
}

/// The power of `block` that encryption under the key `(n, e)` is.
pub open spec fn rsa_power(n: Seq<u8>, e: Seq<u8>, block: Seq<u8>) -> int {
    pow(be_value(block) as int, be_value(e)) % (be_value(n) as int)
}

/// Brings the result of the modular power to the length of an encrypted
/// block by zero bytes in front. A missing result, and one that is longer
/// than a block, is a `CryptoFailure`.
pub fn cipher_block(raw: Option<Vec<u8>>) -> (r: Result<Vec<u8>, Error>)
    ensures
        match raw {
            Some(v) if v@.len() <= CIPHER_LEN => r is Ok && r->Ok_0@ == Seq::new(
                (CIPHER_LEN - v@.len()) as nat,
                |i: int| 0u8,
            ) + v@ && r->Ok_0@.len() == CIPHER_LEN && be_value(r->Ok_0@) == be_value(v@),
            _ => r == Err::<Vec<u8>, Error>(Error::CryptoFailure),
        },
{
    match raw {
        Some(v) => {
            if v.len() > CIPHER_LEN {
                return Err(Error::CryptoFailure);
            }
            let fill = CIPHER_LEN - v.len();
            let mut out: Vec<u8> = Vec::new();
            let mut i: usize = 0;
            while i < fill
                invariant
                    i <= fill,
                    out@ == Seq::new(i as nat, |j: int| 0u8),
                decreases fill - i,
            {
                out.push(0);
                i += 1;
                assert(out@ =~= Seq::new(i as nat, |j: int| 0u8));
            }
            append_bytes(&mut out, v.as_slice());
            proof {
                lemma_be_value_leading_zeros(fill as nat, v@);
            }
            Ok(out)
        },
        None => Err(Error::CryptoFailure),
    }
}

/// Whether a key can be handed to the big-number routines.
pub open spec fn usable_key(key: &PublicKey) -> bool {
    key.n@.len() <= MAX_NUMBER_LEN && key.e@.len() <= MAX_NUMBER_LEN
}

/// Encrypts a block of 255 bytes under a public key: the block, read as a
/// number, to the power of the exponent modulo the modulus, in 256 bytes. A
/// block of another length is a `LengthMismatch`, a key too long for the
/// big-number routines a `NumberTooLong`; a refusal of the outside library
/// is a `CryptoFailure`.
pub fn rsa_encrypt(key: &PublicKey, block: &[u8]) -> (r: Result<Vec<u8>, Error>)
    ensures
        block@.len() != BLOCK_LEN ==> r == Err::<Vec<u8>, Error>(
            Error::LengthMismatch { expected: BLOCK_LEN, found: block@.len() as usize },
        ),
        block@.len() == BLOCK_LEN && !usable_key(key) ==> r == Err::<Vec<u8>, Error>(
            Error::NumberTooLong,
        ),
        block@.len() == BLOCK_LEN && usable_key(key) ==> match r {
            Ok(cipher) => cipher@.len() == CIPHER_LEN && be_value(cipher@) == rsa_power(
                key.n@,
                key.e@,
                block@,
            ),
            Err(e) => e == Error::CryptoFailure,
        },
{
    if block.len() != BLOCK_LEN {
        return Err(Error::LengthMismatch { expected: BLOCK_LEN, found: block.len() });
    }
    if key.n.len() > MAX_NUMBER_LEN || key.e.len() > MAX_NUMBER_LEN {
        return Err(Error::NumberTooLong);
    }
    cipher_block(openssl_mod_exp(block, key.e.as_slice(), key.n.as_slice()))
}

/// The fingerprint that an encoded key has: the low 64 bits of the SHA-1
/// digest of the encoding, the last eight bytes read least significant
/// first.
pub open spec fn fingerprint_of(der: Seq<u8>) -> u64 {
    le_value(piece(sha1_digest(der), 12, 8)) as u64
}

/// Computes the fingerprint of an encoded key.
pub fn der_fingerprint(der: &[u8]) -> (fingerprint: u64)
    ensures
        fingerprint == fingerprint_of(der@),
{
    let digest = sha1(der);
    let tail = vstd::slice::slice_subrange(digest.as_slice(), 12, 20);
    assert(tail@ =~= piece(sha1_digest(der@), 12, 8));
    assert(tail@.subrange(0, 8) =~= tail@);
    u64_from_le(tail)
}

/// Computes the fingerprint of a public key: that of its DER encoding. A key
/// too long for the big-number routines is a `NumberTooLong`; a refusal
/// of the outside library is a `CryptoFailure`.
pub fn rsa_fingerprint(key: &PublicKey) -> (r: Result<u64, Error>)
    ensures
        !usable_key(key) ==> r == Err::<u64, Error>(Error::NumberTooLong),
        usable_key(key) ==> match r {
            Ok(fingerprint) => fingerprint == fingerprint_of(rsa_public_key_der(key.n@, key.e@)),
            Err(e) => e == Error::CryptoFailure,
        },
{
    if key.n.len() > MAX_NUMBER_LEN || key.e.len() > MAX_NUMBER_LEN {
        return Err(Error::NumberTooLong);
    }
    match openssl_public_key_der(key.n.as_slice(), key.e.as_slice()) {
        Some(der) => Ok(der_fingerprint(der.as_slice())),
        None => Err(Error::CryptoFailure),
    }
}

/// Whether the key at `at` in `known` has the fingerprint `fingerprint`
/// and no key before it has.
pub open spec fn first_with(known: Seq<KnownKey>, fingerprint: u64, at: int) -> bool {
    &&& 0 <= at < known.len()
    &&& known[at].fingerprint == fingerprint
    &&& forall|j: int| 0 <= j < at ==> (#[trigger] known[j]).fingerprint != fingerprint
}

/// Whether some key in `known` has the fingerprint `fingerprint`.
pub open spec fn is_known(known: Seq<KnownKey>, fingerprint: u64) -> bool {
    exists|j: int| 0 <= j < known.len() && (#[trigger] known[j]).fingerprint == fingerprint
}

/// Finds the first key in `known` with the given fingerprint.
pub fn position_of(known: &[KnownKey], fingerprint: u64) -> (r: Option<usize>)
    ensures
        r matches Some(at) ==> first_with(known@, fingerprint, at as int),
        r is None ==> !is_known(known@, fingerprint),
{
    let mut j: usize = 0;
    while j < known.len()
        invariant
            j <= known.len(),
            forall|k: int| 0 <= k < j ==> (#[trigger] known@[k]).fingerprint != fingerprint,
        decreases known.len() - j,
    {
        if known[j].fingerprint == fingerprint {
            return Some(j);
        }
        j += 1;
    }
    None
}

/// Picks the key to talk to a server with: the first fingerprint that the
/// server offers of which a key is known, and the first such key. Returns
/// the places of the fingerprint and of the key, or `NoKnownFingerprint`
/// when no offered fingerprint belongs to a known key.
pub fn find_key(offered: &[u64], known: &[KnownKey]) -> (r: Result<(usize, usize), Error>)
    ensures
        match r {
            Ok((i, j)) => 0 <= i < offered@.len() && first_with(known@, offered@[i as int], j as int)
                && forall|k: int| 0 <= k < i ==> !is_known(known@, #[trigger] offered@[k]),
            Err(e) => e == Error::NoKnownFingerprint && forall|k: int|
                0 <= k < offered@.len() ==> !is_known(known@, #[trigger] offered@[k]),
        },
{
    let mut i: usize = 0;
    while i < offered.len()
        invariant
            i <= offered.len(),
            forall|k: int| 0 <= k < i ==> !is_known(known@, #[trigger] offered@[k]),
        decreases offered.len() - i,
    {
        match position_of(known, offered[i]) {
            Some(j) => {
                return Ok((i, j));
            },
            None => {},
        }
        i += 1;
    }
    Err(Error::NoKnownFingerprint)
}

} // verus!
