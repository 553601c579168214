//! SHA-1 and SHA-256 digests.

use crate::tl::parsing::copy_range;
use vstd::prelude::*;

verus! {

/// Length of a SHA-1 digest in bytes.
pub const SHA1_LEN: usize = 20;

/// Length of a SHA-256 digest in bytes.
pub const SHA256_LEN: usize = 32;

/// The SHA-1 digest of `data`.
pub uninterp spec fn sha1_digest(data: Seq<u8>) -> Seq<u8>;

/// The SHA-256 digest of `data`.
pub uninterp spec fn sha256_digest(data: Seq<u8>) -> Seq<u8>;

/// The digest that `openssl::sha::sha1` computes of `data`: twenty bytes.
#[verifier::external_body]
fn openssl_sha1(data: &[u8]) -> (digest: [u8; 20])
    ensures
        digest@ == sha1_digest(data@),
{
    openssl::sha::sha1(data)
}

/// The digest that `openssl::sha::sha256` computes of `data`: thirty-two
/// bytes.
#[verifier::external_body]
fn openssl_sha256(data: &[u8]) -> (digest: [u8; 32])
    ensures
        digest@ == sha256_digest(data@),
{
    openssl::sha::sha256(data)
}

/// The SHA-1 digest of `data`.
pub fn sha1(data: &[u8]) -> (digest: Vec<u8>)
    ensures
        digest@ == sha1_digest(data@),
        digest@.len() == SHA1_LEN,
{
    let raw = openssl_sha1(data);
    let digest = copy_range(raw.as_slice(), 0, SHA1_LEN);
    assert(digest@ =~= raw@);
    digest
}

/// The SHA-256 digest of `data`.
pub fn sha256(data: &[u8]) -> (digest: Vec<u8>)
    ensures
        digest@ == sha256_digest(data@),
        digest@.len() == SHA256_LEN,
{
    let raw = openssl_sha256(data);
    let digest = copy_range(raw.as_slice(), 0, SHA256_LEN);
    assert(digest@ =~= raw@);
    digest
}

} // verus!
