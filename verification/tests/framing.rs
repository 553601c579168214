use mtproto::error::Error;
use mtproto::network::connection::http::ConnectionHttp;
use mtproto::network::connection::tcp_abridged::ConnectionTcpAbridged;
use mtproto::network::connection::tcp_full::ConnectionTcpFull;
use mtproto::network::connection::tcp_intermediate::ConnectionTcpIntermediate;

fn reference_crc32(data: &[u8]) -> u32 {
    let mut crc = 0xffff_ffffu32;
    for &byte in data {
        crc ^= byte as u32;
        for _ in 0..8 {
            crc = if crc & 1 == 1 { (crc >> 1) ^ 0xedb8_8320 } else { crc >> 1 };
        }
    }
    !crc
}

#[test]
fn intermediate_empty_payload_on_fresh_connection() {
    let mut conn = ConnectionTcpIntermediate::new();
    assert!(conn.is_first_request());
    assert_eq!(conn.frame(&[]), Ok(vec![0xee, 0xee, 0xee, 0xee, 0, 0, 0, 0]));
    assert!(!conn.is_first_request());
    assert_eq!(conn.frame(&[]), Ok(vec![0, 0, 0, 0]));
    assert!(!conn.is_first_request());
}

#[test]
fn intermediate_round_trip() {
    let mut conn = ConnectionTcpIntermediate::new();
    conn.frame(&[]).unwrap();
    let payload: Vec<u8> = (0..300u32).map(|i| i as u8).collect();
    let packet = conn.frame(&payload).unwrap();
    assert_eq!(&packet[..4], &[0x2c, 0x01, 0, 0]);
    assert_eq!(ConnectionTcpIntermediate::parse(&packet), Ok(payload.clone()));
    let mut stream = packet.clone();
    stream.extend_from_slice(&[1, 2, 3]);
    assert_eq!(ConnectionTcpIntermediate::parse(&stream), Ok(payload));
    assert_eq!(ConnectionTcpIntermediate::payload_len(&[0x2c, 0x01, 0, 0]), 300);
}

#[test]
fn intermediate_short_stream() {
    assert_eq!(ConnectionTcpIntermediate::parse(&[1, 0, 0]), Err(Error::UnexpectedEof));
    assert_eq!(ConnectionTcpIntermediate::parse(&[2, 0, 0, 0, 9]), Err(Error::UnexpectedEof));
    assert_eq!(ConnectionTcpIntermediate::parse(&[0, 0, 0, 0]), Ok(vec![]));
}

#[test]
fn abridged_twelve_bytes_on_fresh_connection() {
    let mut conn = ConnectionTcpAbridged::new();
    let payload = [1u8, 2, 3, 4, 5, 6, 7, 8, 9, 10, 11, 12];
    let mut expected = vec![0xef, 0x03];
    expected.extend_from_slice(&payload);
    assert_eq!(conn.frame(&payload), Ok(expected));
    assert!(!conn.is_first_request());
    let mut second = vec![0x03];
    second.extend_from_slice(&payload);
    assert_eq!(conn.frame(&payload), Ok(second.clone()));
    assert_eq!(ConnectionTcpAbridged::parse(&second), Ok(payload.to_vec()));
}

#[test]
fn abridged_length_forms() {
    let mut conn = ConnectionTcpAbridged::new();
    conn.frame(&[]).unwrap();
    let short = vec![7u8; 0x7e * 4];
    let packet = conn.frame(&short).unwrap();
    assert_eq!(packet[0], 0x7e);
    assert_eq!(packet.len(), 1 + 0x7e * 4);
    assert_eq!(ConnectionTcpAbridged::parse(&packet), Ok(short));
    let long = vec![8u8; 0x7f * 4];
    let packet = conn.frame(&long).unwrap();
    assert_eq!(&packet[..4], &[0x7f, 0x7f, 0, 0]);
    assert_eq!(ConnectionTcpAbridged::parse(&packet), Ok(long));
    let longer = vec![9u8; 0x1_0203 * 4];
    let packet = conn.frame(&longer).unwrap();
    assert_eq!(&packet[..4], &[0x7f, 0x03, 0x02, 0x01]);
    assert_eq!(ConnectionTcpAbridged::parse(&packet), Ok(longer));
}

#[test]
fn abridged_refuses_what_it_cannot_announce() {
    let mut conn = ConnectionTcpAbridged::new();
    assert_eq!(conn.frame(&[1, 2, 3]), Err(Error::UnalignedLength));
    assert!(conn.is_first_request());
    let huge = vec![0u8; 0x100_0000 * 4];
    assert_eq!(conn.frame(&huge), Err(Error::LengthTooLarge));
    assert!(conn.is_first_request());
}

#[test]
fn abridged_bad_streams() {
    assert_eq!(ConnectionTcpAbridged::parse(&[]), Err(Error::UnexpectedEof));
    assert_eq!(ConnectionTcpAbridged::parse(&[0x80, 0, 0, 0]), Err(Error::LengthTooLarge));
    assert_eq!(ConnectionTcpAbridged::parse(&[0x7f, 1, 0]), Err(Error::UnexpectedEof));
    assert_eq!(ConnectionTcpAbridged::parse(&[1, 0, 0, 0]), Err(Error::UnexpectedEof));
    assert_eq!(ConnectionTcpAbridged::parse(&[0]), Ok(vec![]));
}

#[test]
fn full_hello_at_seq_zero() {
    let mut conn = ConnectionTcpFull::new();
    let packet = conn.frame(b"HELLO").unwrap();
    let head = [0x11u8, 0, 0, 0, 0, 0, 0, 0, 0x48, 0x45, 0x4c, 0x4c, 0x4f];
    assert_eq!(&packet[..13], &head);
    assert_eq!(&packet[13..], &reference_crc32(&head).to_le_bytes());
    assert_eq!(packet.len(), 17);
    assert_eq!(conn.send_seq(), 1);
    assert_eq!(conn.recv_seq(), 0);
}

#[test]
fn full_checksum_of_known_text() {
    assert_eq!(reference_crc32(b"123456789"), 0xcbf4_3926);
    let mut conn = ConnectionTcpFull::new();
    let packet = conn.frame(b"6789").unwrap();
    let n = packet.len();
    assert_eq!(&packet[n - 4..], &reference_crc32(&packet[..n - 4]).to_le_bytes());
}

#[test]
fn full_round_trip_counts_packets() {
    let mut sender = ConnectionTcpFull::new();
    let mut receiver = ConnectionTcpFull::new();
    for i in 0..5u8 {
        let payload = vec![i; i as usize * 3];
        let packet = sender.frame(&payload).unwrap();
        assert_eq!(packet[4], i);
        assert_eq!(receiver.parse(&packet), Ok(payload));
    }
    assert_eq!(sender.send_seq(), 5);
    assert_eq!(receiver.recv_seq(), 5);
}

#[test]
fn full_detects_damage() {
    let mut sender = ConnectionTcpFull::new();
    let first = sender.frame(b"abcd").unwrap();
    let second = sender.frame(b"efgh").unwrap();
    let mut receiver = ConnectionTcpFull::new();
    assert_eq!(receiver.parse(&second), Err(Error::SeqOutOfOrder { expected: 0, found: 1 }));
    assert_eq!(receiver.recv_seq(), 0);
    let mut damaged = first.clone();
    damaged[9] ^= 1;
    let mut carried = [0u8; 4];
    carried.copy_from_slice(&damaged[12..]);
    assert_eq!(
        receiver.parse(&damaged),
        Err(Error::CrcMismatch {
            expected: reference_crc32(&damaged[..12]),
            found: u32::from_le_bytes(carried),
        })
    );
    assert_eq!(receiver.parse(&first[..15]), Err(Error::UnexpectedEof));
    assert_eq!(receiver.parse(&first[..11]), Err(Error::UnexpectedEof));
    assert_eq!(receiver.parse(&[4, 0, 0, 0, 0, 0, 0, 0, 0, 0, 0, 0]), Err(Error::UnexpectedEof));
    assert_eq!(receiver.recv_seq(), 0);
    assert_eq!(receiver.parse(&first), Ok(b"abcd".to_vec()));
    assert_eq!(receiver.parse(&second), Ok(b"efgh".to_vec()));
}

#[test]
fn http_body_is_the_envelope() {
    let conn = ConnectionHttp::new();
    assert_eq!(conn.frame(&[1, 2, 3]), Ok(vec![1, 2, 3]));
    assert_eq!(ConnectionHttp::parse(&[4, 5]), Ok(vec![4, 5]));
    assert_eq!(mtproto::network::connection::http::METHOD, "POST");
    assert_eq!(mtproto::network::connection::http::CONTENT_TYPE, "application/octet-stream");
}
