use mtproto::crypto::aes::{aes_ige_decrypt, aes_ige_encrypt};
use mtproto::crypto::hash::{sha1, sha256};
use mtproto::crypto::random::random_bytes;
use mtproto::error::Error;
use mtproto::protocol::ProtocolVersion;
use mtproto::tl::envelope::{bytes_equal, cipher_params, key_id, message_key, Direction};
use mtproto::tl::message::{Message, MessageCommon, MessagePlain};

fn hex(bytes: &[u8]) -> String {
    let mut out = String::new();
    for byte in bytes {
        out.push_str(&format!("{:02x}", byte));
    }
    out
}

fn sample_key() -> [u8; 256] {
    let mut key = [0u8; 256];
    for (i, byte) in key.iter_mut().enumerate() {
        *byte = (i * 7 + 3) as u8;
    }
    key
}

fn sample_message(body: Vec<u8>) -> Message {
    Message::new(0x1122_3344_5566_7788, -5, 0x5f5e_1000_0000_0004, 3, body).unwrap()
}

#[test]
fn sha1_of_known_text() {
    assert_eq!(hex(&sha1(b"abc")), "a9993e364706816aba3e25717850c26c9cd0d89d");
    assert_eq!(hex(&sha1(b"")), "da39a3ee5e6b4b0d3255bfef95601890afd80709");
}

#[test]
fn sha256_of_known_text() {
    assert_eq!(
        hex(&sha256(b"abc")),
        "ba7816bf8f01cfea414140de5dae2223b00361a396177a9cb410ff61f20015ad"
    );
}

#[test]
fn aes_ige_round_trip() {
    let key = [0x11u8; 32];
    let iv = [0x22u8; 32];
    let plain: Vec<u8> = (0..64u8).collect();
    let cipher = aes_ige_encrypt(&key, &iv, &plain).unwrap();
    assert_eq!(cipher.len(), 64);
    assert_ne!(cipher, plain);
    assert_eq!(aes_ige_decrypt(&key, &iv, &cipher), Ok(plain));
}

#[test]
fn aes_ige_depends_on_the_vector() {
    let key: Vec<u8> = (0..16u8).collect();
    let mut key32 = key.clone();
    key32.extend_from_slice(&key);
    let iv: Vec<u8> = (0..32u8).collect();
    let plain = [0u8; 32];
    let cipher = aes_ige_encrypt(&key32, &iv, &plain).unwrap();
    assert_eq!(aes_ige_decrypt(&key32, &iv, &cipher), Ok(plain.to_vec()));
    let other_iv = [0u8; 32];
    assert_ne!(aes_ige_encrypt(&key32, &other_iv, &plain).unwrap(), cipher);
}

#[test]
fn aes_ige_refuses_bad_lengths() {
    assert_eq!(aes_ige_encrypt(&[0; 32], &[0; 32], &[0; 15]), Err(Error::UnalignedLength));
    assert_eq!(aes_ige_encrypt(&[0; 31], &[0; 32], &[0; 16]), Err(Error::UnalignedLength));
    assert_eq!(aes_ige_decrypt(&[0; 32], &[0; 16], &[0; 16]), Err(Error::UnalignedLength));
    assert_eq!(aes_ige_decrypt(&[0; 32], &[0; 32], &[0; 17]), Err(Error::UnalignedLength));
    assert_eq!(aes_ige_encrypt(&[0; 32], &[0; 32], &[]), Ok(vec![]));
}

#[test]
fn random_bytes_have_the_length_asked_for() {
    assert_eq!(random_bytes(0).len(), 0);
    assert_eq!(random_bytes(27).len(), 27);
    assert_ne!(random_bytes(32), random_bytes(32));
}

#[test]
fn plain_envelope_layout() {
    let message = MessagePlain::new(0, 0, 0x0102_0304_0506_0708, 0, vec![0xaa, 0xbb, 0xcc, 0xdd])
        .unwrap();
    let bytes = message.to_bytes().unwrap();
    assert_eq!(
        bytes,
        vec![0, 0, 0, 0, 0, 0, 0, 0, 8, 7, 6, 5, 4, 3, 2, 1, 4, 0, 0, 0, 0xaa, 0xbb, 0xcc, 0xdd]
    );
    let back = MessagePlain::from_bytes(&bytes).unwrap();
    assert_eq!(back.message_id, 0x0102_0304_0506_0708);
    assert_eq!(back.body, vec![0xaa, 0xbb, 0xcc, 0xdd]);
}

#[test]
fn plain_envelope_with_negative_id_and_empty_body() {
    let message = MessagePlain::new(1, 2, -4, 3, vec![]).unwrap();
    let bytes = message.to_bytes().unwrap();
    assert_eq!(bytes.len(), 20);
    assert_eq!(&bytes[8..16], &[0xfc, 0xff, 0xff, 0xff, 0xff, 0xff, 0xff, 0xff]);
    let back = MessagePlain::from_bytes(&bytes).unwrap();
    assert_eq!(back.message_id, -4);
    assert!(back.body.is_empty());
}

#[test]
fn plain_envelope_errors() {
    let message = MessagePlain::new(0, 0, 8, 0, vec![1, 2, 3, 4]).unwrap();
    let bytes = message.to_bytes().unwrap();
    let mut keyed = bytes.clone();
    keyed[3] = 1;
    assert!(matches!(
        MessagePlain::from_bytes(&keyed),
        Err(Error::PlainAuthKeyIdNonZero { found: 0x0100_0000 })
    ));
    let mut longer = bytes.clone();
    longer.push(0);
    assert!(matches!(
        MessagePlain::from_bytes(&longer),
        Err(Error::LengthMismatch { expected: 4, found: 5 })
    ));
    assert!(matches!(
        MessagePlain::from_bytes(&bytes[..23]),
        Err(Error::LengthMismatch { expected: 4, found: 3 })
    ));
    assert!(matches!(
        MessagePlain::from_bytes(&bytes[..19]),
        Err(Error::LengthMismatch { expected: 20, found: 19 })
    ));
    assert!(matches!(
        MessagePlain::from_bytes(&[]),
        Err(Error::LengthMismatch { expected: 20, found: 0 })
    ));
}

#[test]
fn key_id_is_the_end_of_the_digest() {
    let key = sample_key();
    assert_eq!(key_id(&key), sha1(&key)[12..].to_vec());
}

#[test]
fn message_key_by_version() {
    let key = sample_key();
    let inner = [5u8; 48];
    let padding = [6u8; 16];
    let v1 = message_key(&key, ProtocolVersion::V1, Direction::ToServer, &inner, &padding);
    assert_eq!(v1, sha1(&inner)[4..20].to_vec());
    let v2 = message_key(&key, ProtocolVersion::V2, Direction::FromServer, &inner, &padding);
    let mut input = key[96..128].to_vec();
    input.extend_from_slice(&inner);
    input.extend_from_slice(&padding);
    assert_eq!(v2, sha256(&input)[8..24].to_vec());
}

#[test]
fn cipher_params_version_2() {
    let key = sample_key();
    let mk = [9u8; 16];
    let (aes_key, aes_iv) = cipher_params(&key, ProtocolVersion::V2, Direction::ToServer, &mk);
    let mut in_a = mk.to_vec();
    in_a.extend_from_slice(&key[0..36]);
    let a = sha256(&in_a);
    let mut in_b = key[40..76].to_vec();
    in_b.extend_from_slice(&mk);
    let b = sha256(&in_b);
    let mut expected_key = a[0..8].to_vec();
    expected_key.extend_from_slice(&b[8..24]);
    expected_key.extend_from_slice(&a[24..32]);
    let mut expected_iv = b[0..8].to_vec();
    expected_iv.extend_from_slice(&a[8..24]);
    expected_iv.extend_from_slice(&b[24..32]);
    assert_eq!(aes_key, expected_key);
    assert_eq!(aes_iv, expected_iv);
}

#[test]
fn cipher_params_version_1() {
    let key = sample_key();
    let mk = [3u8; 16];
    let (aes_key, aes_iv) = cipher_params(&key, ProtocolVersion::V1, Direction::FromServer, &mk);
    let x = 8;
    let cat = |parts: &[&[u8]]| -> Vec<u8> {
        let mut out = Vec::new();
        for part in parts {
            out.extend_from_slice(part);
        }
        out
    };
    let a = sha1(&cat(&[&mk, &key[x..x + 32]]));
    let b = sha1(&cat(&[&key[32 + x..48 + x], &mk, &key[48 + x..64 + x]]));
    let c = sha1(&cat(&[&key[64 + x..96 + x], &mk]));
    let d = sha1(&cat(&[&mk, &key[96 + x..128 + x]]));
    assert_eq!(aes_key, cat(&[&a[0..8], &b[8..20], &c[4..16]]));
    assert_eq!(aes_iv, cat(&[&a[8..20], &b[0..8], &c[16..20], &d[0..8]]));
}

#[test]
fn authenticated_round_trip_both_versions() {
    let key = sample_key();
    for version in [ProtocolVersion::V1, ProtocolVersion::V2] {
        for direction in [Direction::ToServer, Direction::FromServer] {
            for len in [0usize, 4, 8, 12, 16, 100] {
                let body: Vec<u8> = (0..len).map(|i| i as u8).collect();
                let message = sample_message(body.clone());
                let bytes = message.to_bytes(&key, version, direction).unwrap();
                assert_eq!((bytes.len() - 24) % 16, 0);
                assert!(bytes.len() >= 24 + 32 + len + 12);
                assert!(bytes.len() < 24 + 32 + len + 12 + 16);
                assert_eq!(&bytes[..8], &key_id(&key)[..]);
                let back = Message::from_bytes(&bytes, &key, version, direction).unwrap();
                assert_eq!(back.salt, 0x1122_3344_5566_7788);
                assert_eq!(back.session_id, -5);
                assert_eq!(back.message_id, 0x5f5e_1000_0000_0004);
                assert_eq!(back.seq_no, 3);
                assert_eq!(back.body, body);
            }
        }
    }
}

#[test]
fn sealing_checks_the_padding() {
    let key = sample_key();
    let message = sample_message(vec![0; 4]);
    let v = ProtocolVersion::V2;
    let d = Direction::ToServer;
    assert!(matches!(message.seal(&key, v, d, &[0; 11]), Err(Error::BadInnerLength)));
    assert!(matches!(message.seal(&key, v, d, &[0; 13]), Err(Error::BadInnerLength)));
    assert!(matches!(message.seal(&key, v, d, &[0; 1036]), Err(Error::BadInnerLength)));
    let sealed = message.seal(&key, v, d, &[7; 28]).unwrap();
    assert_eq!(sealed.len(), 24 + 36 + 28);
    let back = Message::from_bytes(&sealed, &key, v, d).unwrap();
    assert_eq!(back.body, vec![0; 4]);
    assert_eq!(message.inner_bytes().unwrap().len(), 36);
}

#[test]
fn opening_detects_damage() {
    let key = sample_key();
    let v = ProtocolVersion::V2;
    let d = Direction::ToServer;
    let message = sample_message(vec![1, 2, 3, 4, 5, 6, 7, 8]);
    let sealed = message.seal(&key, v, d, &[0x55; 24]).unwrap();

    let mut other_key = key;
    other_key[0] ^= 1;
    let as_number = |id: Vec<u8>| {
        let mut bytes = [0u8; 8];
        bytes.copy_from_slice(&id);
        u64::from_le_bytes(bytes)
    };
    let expected = as_number(key_id(&other_key));
    let found = as_number(key_id(&key));
    assert!(matches!(
        Message::from_bytes(&sealed, &other_key, v, d),
        Err(Error::AuthKeyIdMismatch { expected: e, found: f }) if e == expected && f == found
    ));
    assert!(matches!(Message::from_bytes(&sealed[..40], &key, v, d), Err(Error::BadInnerLength)));
    assert!(matches!(
        Message::from_bytes(&sealed[..sealed.len() - 1], &key, v, d),
        Err(Error::BadInnerLength)
    ));
    let mut damaged = sealed.clone();
    let last = damaged.len() - 1;
    damaged[last] ^= 1;
    assert!(Message::from_bytes(&damaged, &key, v, d).is_err());
    assert!(Message::from_bytes(&sealed, &key, v, Direction::FromServer).is_err());
}

#[test]
fn open_plain_checks_length_and_key() {
    let key = sample_key();
    let v = ProtocolVersion::V1;
    let d = Direction::ToServer;
    let message = sample_message(vec![9; 8]);
    let inner = message.inner_bytes().unwrap();
    let padding = [0u8; 24];
    let mk = message_key(&key, v, d, &inner, &padding);
    let mut plain = inner.clone();
    plain.extend_from_slice(&padding);
    let back = Message::open_plain(&plain, &mk, &key, v, d).unwrap();
    assert_eq!(back.body, vec![9; 8]);
    assert_eq!(back.seq_no, 3);

    let wrong = [0u8; 16];
    assert!(matches!(Message::open_plain(&plain, &wrong, &key, v, d), Err(Error::MsgKeyMismatch)));
    assert!(matches!(
        Message::open_plain(&plain[..31], &mk, &key, v, d),
        Err(Error::BadInnerLength)
    ));
    let mut overlong = plain.clone();
    overlong[28] = 200;
    assert!(matches!(
        Message::open_plain(&overlong, &mk, &key, v, d),
        Err(Error::BadInnerLength)
    ));
    // Version 2 wants twelve bytes of padding; version 1 takes none.
    assert!(matches!(
        Message::open_plain(&inner, &mk, &key, ProtocolVersion::V2, d),
        Err(Error::BadInnerLength)
    ));
    assert!(Message::open_plain(&inner, &mk, &key, v, d).is_ok());
    let mut padded = inner.clone();
    padded.extend_from_slice(&[0u8; 1025]);
    assert!(matches!(Message::open_plain(&padded, &mk, &key, v, d), Err(Error::BadInnerLength)));
}

#[test]
fn bytes_equal_compares_content() {
    assert!(bytes_equal(&[], &[]));
    assert!(bytes_equal(&[1, 2], &[1, 2]));
    assert!(!bytes_equal(&[1, 2], &[1, 3]));
    assert!(!bytes_equal(&[1, 2], &[1, 2, 3]));
}
