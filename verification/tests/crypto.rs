use mtproto::crypto::factor::pq_decompose;
use mtproto::crypto::hash::sha1;
use mtproto::crypto::rsa::{
    cipher_block, der_fingerprint, find_key, position_of, rsa_encrypt, rsa_fingerprint, KnownKey,
    PublicKey,
};
use mtproto::error::Error;

fn toy_key() -> PublicKey {
    // n = 61 * 53 = 3233, e = 17
    PublicKey { n: vec![0x0c, 0xa1], e: vec![17] }
}

fn known(fingerprints: &[u64]) -> Vec<KnownKey> {
    fingerprints
        .iter()
        .enumerate()
        .map(|(i, &fingerprint)| KnownKey {
            fingerprint,
            key: PublicKey { n: vec![i as u8 + 1], e: vec![3] },
        })
        .collect()
}

#[test]
fn pq_of_small_products() {
    assert_eq!(pq_decompose(4), Ok((2, 2)));
    assert_eq!(pq_decompose(15), Ok((3, 5)));
    assert_eq!(pq_decompose(21), Ok((3, 7)));
    assert_eq!(pq_decompose(49), Ok((7, 7)));
    assert_eq!(pq_decompose(2 * 1_000_003), Ok((2, 1_000_003)));
}

#[test]
fn pq_of_two_large_primes() {
    assert_eq!(pq_decompose(1_000_003 * 1_000_033), Ok((1_000_003, 1_000_033)));
    assert_eq!(pq_decompose(65_537 * 2_147_483_647), Ok((65_537, 2_147_483_647)));
    assert_eq!(pq_decompose(4_294_967_291 * 3), Ok((3, 4_294_967_291)));
}

#[test]
fn pq_that_cannot_be_taken_apart() {
    for pq in [0u64, 1, 2, 3, 5, 13, 1_000_003] {
        assert_eq!(pq_decompose(pq), Err(Error::BadPq));
    }
    // The cofactor of the least divisor does not fit in 32 bits.
    assert_eq!(pq_decompose(2 * (1u64 << 33)), Err(Error::BadPq));
    assert_eq!(pq_decompose(3 * 4_294_967_311), Err(Error::BadPq));
}

#[test]
fn rsa_raw_power() {
    let mut block = vec![0u8; 254];
    block.push(65);
    let cipher = rsa_encrypt(&toy_key(), &block).unwrap();
    assert_eq!(cipher.len(), 256);
    // 65^17 mod 3233 = 2790
    assert!(cipher[..254].iter().all(|&b| b == 0));
    assert_eq!(&cipher[254..], &[0x0a, 0xe6]);
}

#[test]
fn rsa_reads_the_block_most_significant_byte_first() {
    let mut block = vec![0u8; 253];
    block.extend_from_slice(&[1, 0]);
    let cipher = rsa_encrypt(&toy_key(), &block).unwrap();
    // 256^17 mod 3233
    let mut expected = 1u64;
    for _ in 0..17 {
        expected = expected * 256 % 3233;
    }
    assert_eq!(cipher[254] as u64 * 256 + cipher[255] as u64, expected);
}

#[test]
fn rsa_refuses_other_block_lengths() {
    assert_eq!(
        rsa_encrypt(&toy_key(), &[0u8; 254]),
        Err(Error::LengthMismatch { expected: 255, found: 254 })
    );
    assert_eq!(
        rsa_encrypt(&toy_key(), &[0u8; 256]),
        Err(Error::LengthMismatch { expected: 255, found: 256 })
    );
    assert_eq!(
        rsa_encrypt(&toy_key(), &[]),
        Err(Error::LengthMismatch { expected: 255, found: 0 })
    );
}

#[test]
fn rsa_with_zero_modulus_is_a_crypto_failure() {
    let key = PublicKey { n: vec![0], e: vec![3] };
    assert_eq!(rsa_encrypt(&key, &[1u8; 255]), Err(Error::CryptoFailure));
}

#[test]
fn cipher_block_pads_in_front() {
    assert_eq!(cipher_block(None), Err(Error::CryptoFailure));
    assert_eq!(cipher_block(Some(vec![1; 257])), Err(Error::CryptoFailure));
    let padded = cipher_block(Some(vec![7, 8])).unwrap();
    assert_eq!(padded.len(), 256);
    assert_eq!(&padded[254..], &[7, 8]);
    assert!(padded[..254].iter().all(|&b| b == 0));
    assert_eq!(cipher_block(Some(vec![9; 256])), Ok(vec![9; 256]));
    assert_eq!(cipher_block(Some(vec![])), Ok(vec![0; 256]));
}

#[test]
fn fingerprint_of_a_known_encoding() {
    // SEQUENCE { INTEGER 3233, INTEGER 17 }
    let der = [0x30u8, 0x07, 0x02, 0x02, 0x0c, 0xa1, 0x02, 0x01, 0x11];
    let digest = sha1(&der);
    let mut tail = [0u8; 8];
    tail.copy_from_slice(&digest[12..]);
    assert_eq!(der_fingerprint(&der), u64::from_le_bytes(tail));
    assert_eq!(rsa_fingerprint(&toy_key()), Ok(der_fingerprint(&der)));
}

#[test]
fn fingerprint_tells_keys_apart() {
    let other = PublicKey { n: vec![0x0c, 0xa1], e: vec![1, 0, 1] };
    assert_ne!(rsa_fingerprint(&toy_key()), rsa_fingerprint(&other));
    // A high first byte takes a zero byte in front in the encoding.
    let high = PublicKey { n: vec![0xff, 0x01], e: vec![3] };
    let der = [0x30u8, 0x08, 0x02, 0x03, 0x00, 0xff, 0x01, 0x02, 0x01, 0x03];
    assert_eq!(rsa_fingerprint(&high), Ok(der_fingerprint(&der)));
}

#[test]
fn first_offered_fingerprint_wins() {
    let table = known(&[10, 20, 30, 20]);
    assert_eq!(find_key(&[99, 20, 10], &table), Ok((1, 1)));
    assert_eq!(find_key(&[30, 20], &table), Ok((0, 2)));
    assert_eq!(find_key(&[10], &table), Ok((0, 0)));
    assert_eq!(position_of(&table, 20), Some(1));
    assert_eq!(position_of(&table, 40), None);
}

#[test]
fn no_known_fingerprint() {
    let table = known(&[10, 20]);
    assert_eq!(find_key(&[1, 2, 3], &table), Err(Error::NoKnownFingerprint));
    assert_eq!(find_key(&[], &table), Err(Error::NoKnownFingerprint));
    assert_eq!(find_key(&[10], &[]), Err(Error::NoKnownFingerprint));
}
