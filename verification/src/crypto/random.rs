//! Random bytes for nonces and padding.

use vstd::prelude::*;

verus! {

/// Draws a byte from `rand::random`. Nothing is promised of the value.
#[verifier::external_body]
fn random_byte() -> u8 {
    rand::random()
}

/// Draws `len` random bytes, one after the other.
pub fn random_bytes(len: usize) -> (bytes: Vec<u8>)
    ensures
        bytes@.len() == len,
{
    let mut bytes: Vec<u8> = Vec::new();
    let mut i: usize = 0;
    while i < len
        invariant
            i <= len,
            bytes@.len() == i,
        decreases len - i,
    {
        bytes.push(random_byte());
        i += 1;
    }
    bytes
}

} // verus!
