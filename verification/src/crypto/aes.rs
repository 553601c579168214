//! AES-256 in infinite garble extension mode.

use crate::error::Error;
use vstd::prelude::*;

verus! {

/// Length of a cipher block in bytes.
pub const BLOCK_LEN: usize = 16;

/// Length of a key, and of an initialization vector, in bytes.
pub const KEY_LEN: usize = 32;

/// What AES-256-IGE makes of `data` under `key` and `iv`: the ciphertext if
/// `encrypt` holds, else the plaintext.
pub uninterp spec fn aes_ige_output(key: Seq<u8>, iv: Seq<u8>, data: Seq<u8>, encrypt: bool) -> Seq<
    u8,
>;

/// Whether `cipher` is what encryption makes of `plain`: the output of the
/// cipher, which is as long as its input.
pub open spec fn is_ciphertext(key: Seq<u8>, iv: Seq<u8>, plain: Seq<u8>, cipher: Seq<u8>) -> bool {
    cipher == aes_ige_output(key, iv, plain, true) && cipher.len() == plain.len()
}

/// Encrypts `data` with `openssl::aes::aes_ige`, the key prepared by
/// `AesKey::new_encrypt`, which accepts every key of 256 bits. The output
/// is as long as the input. The outside function panics on data that is
/// not a whole number of blocks and on a vector of less than two blocks.
#[verifier::external_body]
fn openssl_aes_ige_encrypt(key: &[u8], iv: &[u8], data: &[u8]) -> (out: Vec<u8>)
    requires
        key@.len() == 32,
        iv@.len() == 32,
        data@.len() % 16 == 0,
    ensures
        out@ == aes_ige_output(key@, iv@, data@, true),
        out@.len() == data@.len(),
{
    let prepared = openssl::aes::AesKey::new_encrypt(key).unwrap();
    let mut iv = iv.to_vec();
    let mut out = vec![0u8; data.len()];
    openssl::aes::aes_ige(data, &mut out, &prepared, &mut iv, openssl::symm::Mode::Encrypt);
    out
}

/// Decrypts `data` with `openssl::aes::aes_ige`, the key prepared by
/// `AesKey::new_decrypt`, which accepts every key of 256 bits. The output
/// is as long as the input, and what was encrypted under the same key and
/// vector comes back as it was. The outside function panics on data that
/// is not a whole number of blocks and on a vector of less than two blocks.
#[verifier::external_body]
fn openssl_aes_ige_decrypt(key: &[u8], iv: &[u8], data: &[u8]) -> (out: Vec<u8>)
    requires
        key@.len() == 32,
        iv@.len() == 32,
        data@.len() % 16 == 0,
    ensures
        out@ == aes_ige_output(key@, iv@, data@, false),
        out@.len() == data@.len(),
        forall|plain: Seq<u8>|
            plain.len() % 16 == 0 && data@ == #[trigger] aes_ige_output(key@, iv@, plain, true)
                ==> out@ == plain,
{
    let prepared = openssl::aes::AesKey::new_decrypt(key).unwrap();
    let mut iv = iv.to_vec();
    let mut out = vec![0u8; data.len()];
    openssl::aes::aes_ige(data, &mut out, &prepared, &mut iv, openssl::symm::Mode::Decrypt);
    out
}

/// Whether the cipher takes these arguments: a key and a vector of 32
/// bytes, and data of a whole number of blocks.
pub open spec fn cipher_accepts(key: Seq<u8>, iv: Seq<u8>, data: Seq<u8>) -> bool {
    key.len() == KEY_LEN && iv.len() == KEY_LEN && data.len() % 16 == 0
}

/// Encrypts `data`, or fails with `UnalignedLength` on a key or a vector
/// that is not 32 bytes long and on data that is not a whole number of
/// blocks.
pub fn aes_ige_encrypt(key: &[u8], iv: &[u8], data: &[u8]) -> (r: Result<Vec<u8>, Error>)
    ensures
        cipher_accepts(key@, iv@, data@) ==> r is Ok && is_ciphertext(
            key@,
            iv@,
            data@,
            r->Ok_0@,
        ),
        !cipher_accepts(key@, iv@, data@) ==> r == Err::<Vec<u8>, Error>(Error::UnalignedLength),
{
    if key.len() != KEY_LEN || iv.len() != KEY_LEN || data.len() % BLOCK_LEN != 0 {
        return Err(Error::UnalignedLength);
    }
    Ok(openssl_aes_ige_encrypt(key, iv, data))
}

/// Decrypts `data`, or fails with `UnalignedLength` on a key or a vector
/// that is not 32 bytes long and on data that is not a whole number of
/// blocks. What was encrypted under the same key and vector comes back as
/// it was.
pub fn aes_ige_decrypt(key: &[u8], iv: &[u8], data: &[u8]) -> (r: Result<Vec<u8>, Error>)
    ensures
        cipher_accepts(key@, iv@, data@) ==> r is Ok && r->Ok_0@ == aes_ige_output(
            key@,
            iv@,
            data@,
            false,
        ) && r->Ok_0@.len() == data@.len(),
        !cipher_accepts(key@, iv@, data@) ==> r == Err::<Vec<u8>, Error>(Error::UnalignedLength),
        forall|plain: Seq<u8>|
            cipher_accepts(key@, iv@, plain) && #[trigger] is_ciphertext(key@, iv@, plain, data@)
                ==> r is Ok && r->Ok_0@ == plain,
{
    if key.len() != KEY_LEN || iv.len() != KEY_LEN || data.len() % BLOCK_LEN != 0 {
        return Err(Error::UnalignedLength);
    }
    Ok(openssl_aes_ige_decrypt(key, iv, data))
}

} // verus!
