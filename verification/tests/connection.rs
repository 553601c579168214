use mtproto::error::Error;
use mtproto::network::connection::common::Connection;
use mtproto::network::connection::http::ConnectionHttp;
use mtproto::network::connection::tcp_abridged::ConnectionTcpAbridged;
use mtproto::network::connection::tcp_common::{
    parse_response, parse_response_plain, plain_request_payload, request_payload,
};
use mtproto::network::connection::tcp_full::ConnectionTcpFull;
use mtproto::network::connection::tcp_intermediate::ConnectionTcpIntermediate;
use mtproto::network::state::State;
use mtproto::protocol::ProtocolVersion;
use mtproto::tl::envelope::Direction;
use mtproto::tl::message::{Message, MessageCommon, MessagePlain};

fn keyed_state(version: ProtocolVersion) -> State {
    let mut state = State::new(version);
    let mut key = [0u8; 256];
    for (i, byte) in key.iter_mut().enumerate() {
        *byte = (255 - i) as u8;
    }
    state.set_auth_key(key);
    state.set_salt(0x0a0b_0c0d);
    state
}

#[test]
fn plain_request_on_fresh_connection() {
    let mut conn = ConnectionTcpIntermediate::new();
    let mut state = State::new(ProtocolVersion::V2);
    let wire = conn.request_plain(&mut state, vec![1, 2, 3, 4]).unwrap();
    assert_eq!(&wire[..4], &[0xee; 4]);
    assert_eq!(&wire[4..8], &[24, 0, 0, 0]);
    assert_eq!(&wire[8..16], &[0; 8]);
    assert_eq!(&wire[16..24], &state.last_msg_id().to_le_bytes());
    assert_eq!(&wire[24..28], &[4, 0, 0, 0]);
    assert_eq!(&wire[28..], &[1, 2, 3, 4]);
    assert!(state.last_msg_id() > 0);
    assert_eq!(state.seq_no(), 1);
    assert!(!conn.is_first_request());

    let before = state.last_msg_id();
    let wire = conn.request_plain(&mut state, vec![]).unwrap();
    assert_eq!(&wire[..4], &[20, 0, 0, 0]);
    assert_eq!(wire.len(), 24);
    assert!(state.last_msg_id() > before);
    assert_eq!(state.seq_no(), 2);
}

#[test]
fn plain_response_gives_the_body() {
    let response = MessagePlain::new(0, 0, 0x5f5e_1000_0000_0001, 0, vec![5, 6, 7, 8]).unwrap();
    let envelope = response.to_bytes().unwrap();
    assert_eq!(parse_response_plain(&envelope), Ok(vec![5, 6, 7, 8]));
    assert_eq!(
        parse_response_plain(&envelope[..21]),
        Err(Error::LengthMismatch { expected: 4, found: 1 })
    );
    let mut keyed = envelope.clone();
    keyed[0] = 1;
    assert_eq!(parse_response_plain(&keyed), Err(Error::PlainAuthKeyIdNonZero { found: 1 }));
}

#[test]
fn authenticated_request_round_trip() {
    for version in [ProtocolVersion::V1, ProtocolVersion::V2] {
        let mut conn = ConnectionTcpIntermediate::new();
        let mut state = keyed_state(version);
        let wire = conn.request(&mut state, vec![9, 8, 7, 6, 5, 4, 3, 2]).unwrap();
        assert_eq!(&wire[..4], &[0xee; 4]);
        let payload = ConnectionTcpIntermediate::parse(&wire[4..]).unwrap();
        assert_eq!(payload.len(), wire.len() - 8);
        let message =
            Message::from_bytes(&payload, state.auth_raw_key(), version, Direction::ToServer)
                .unwrap();
        assert_eq!(message.salt, 0x0a0b_0c0d);
        assert_eq!(message.session_id, state.id());
        assert_eq!(message.message_id, state.last_msg_id());
        assert_eq!(message.seq_no, 1);
        assert_eq!(message.body, vec![9, 8, 7, 6, 5, 4, 3, 2]);
    }
}

#[test]
fn authenticated_response_gives_the_body() {
    let state = keyed_state(ProtocolVersion::V2);
    let response = Message::new(1, state.id(), 0x5f5e_1000_0000_0001, 2, vec![4; 12]).unwrap();
    let envelope = response
        .to_bytes(state.auth_raw_key(), ProtocolVersion::V2, Direction::FromServer)
        .unwrap();
    assert_eq!(parse_response(&state, &envelope), Ok(vec![4; 12]));
    let other = State::new(ProtocolVersion::V2);
    assert!(matches!(
        parse_response(&other, &envelope),
        Err(Error::AuthKeyIdMismatch { .. })
    ));
    assert_eq!(parse_response(&state, &envelope[..50]), Err(Error::BadInnerLength));
}

#[test]
fn request_that_does_not_fit_leaves_the_session_alone() {
    let mut state = keyed_state(ProtocolVersion::V2);
    assert_eq!(
        plain_request_payload(&mut state, vec![0; 11], 30),
        Err(Error::MessageTooLong(11))
    );
    assert_eq!(request_payload(&mut state, vec![0; 18], 100), Err(Error::MessageTooLong(18)));
    assert_eq!(plain_request_payload(&mut state, vec![], 19), Err(Error::MessageTooLong(0)));
    assert_eq!(state.last_msg_id(), 0);
    assert_eq!(state.seq_no(), 0);
    assert_eq!(plain_request_payload(&mut state, vec![0; 10], 30).unwrap().len(), 30);
    let sealed = request_payload(&mut state, vec![0; 17], 100).unwrap();
    assert!(sealed.len() <= 100);
    assert_eq!(state.seq_no(), 2);
}

#[test]
fn every_framing_round_trips() {
    let payload: Vec<u8> = (0..64u8).collect();
    let mut senders = vec![
        Connection::Abridged(ConnectionTcpAbridged::new()),
        Connection::Intermediate(ConnectionTcpIntermediate::new()),
        Connection::Full(ConnectionTcpFull::new()),
        Connection::Http(ConnectionHttp::new()),
    ];
    let preambles = [1usize, 4, 0, 0];
    for (sender, &preamble) in senders.iter_mut().zip(&preambles) {
        let first = sender.frame(&payload).unwrap();
        let second = sender.frame(&payload).unwrap();
        assert_eq!(first.len(), second.len() + preamble);
        let mut receiver = match sender {
            Connection::Abridged(_) => Connection::Abridged(ConnectionTcpAbridged::new()),
            Connection::Intermediate(_) => {
                Connection::Intermediate(ConnectionTcpIntermediate::new())
            }
            Connection::Full(_) => Connection::Full(ConnectionTcpFull::new()),
            Connection::Http(_) => Connection::Http(ConnectionHttp::new()),
        };
        assert_eq!(receiver.parse(&first[preamble..]), Ok(payload.clone()));
        assert_eq!(receiver.parse(&second), Ok(payload.clone()));
    }
}

#[test]
fn unified_framing_refuses_what_a_framing_cannot_carry() {
    let mut abridged = Connection::Abridged(ConnectionTcpAbridged::new());
    assert_eq!(abridged.frame(&[1, 2, 3]), Err(Error::UnalignedLength));
    let mut full = Connection::Full(ConnectionTcpFull::new());
    assert_eq!(full.parse(&[0; 5]), Err(Error::UnexpectedEof));
    let mut intermediate = Connection::Intermediate(ConnectionTcpIntermediate::new());
    assert_eq!(intermediate.parse(&[9, 0, 0, 0]), Err(Error::UnexpectedEof));
}

#[test]
fn unified_request_over_every_framing() {
    let body = vec![7u8; 16];
    let connections = vec![
        Connection::Abridged(ConnectionTcpAbridged::new()),
        Connection::Intermediate(ConnectionTcpIntermediate::new()),
        Connection::Full(ConnectionTcpFull::new()),
        Connection::Http(ConnectionHttp::new()),
    ];
    let preambles = [1usize, 4, 0, 0];
    for (mut conn, &preamble) in connections.into_iter().zip(&preambles) {
        let mut state = keyed_state(ProtocolVersion::V2);
        assert!(conn.can_carry(36));
        let plain = conn.request_plain(&mut state, body.clone()).unwrap();
        let sealed = conn.request(&mut state, body.clone()).unwrap();
        assert_eq!(state.seq_no(), 2);
        let mut receiver = match conn {
            Connection::Abridged(_) => Connection::Abridged(ConnectionTcpAbridged::new()),
            Connection::Intermediate(_) => {
                Connection::Intermediate(ConnectionTcpIntermediate::new())
            }
            Connection::Full(_) => Connection::Full(ConnectionTcpFull::new()),
            Connection::Http(_) => Connection::Http(ConnectionHttp::new()),
        };
        let envelope = receiver.parse(&plain[preamble..]).unwrap();
        assert_eq!(parse_response_plain(&envelope), Ok(body.clone()));
        let envelope = receiver.parse(&sealed).unwrap();
        assert_eq!(envelope.len(), 24 + 32 + 16 + 16);
        let message = Message::from_bytes(
            &envelope,
            state.auth_raw_key(),
            ProtocolVersion::V2,
            Direction::ToServer,
        )
        .unwrap();
        assert_eq!(message.body, body);
        assert_eq!(message.seq_no, 3);
        assert_eq!(message.message_id, state.last_msg_id());
    }
}

#[test]
fn abridged_request_of_unaligned_body_leaves_everything_alone() {
    let mut conn = Connection::Abridged(ConnectionTcpAbridged::new());
    let mut state = keyed_state(ProtocolVersion::V1);
    assert!(!conn.can_carry(23));
    assert_eq!(conn.request_plain(&mut state, vec![1, 2, 3]), Err(Error::UnalignedLength));
    assert_eq!(state.seq_no(), 0);
    assert_eq!(state.last_msg_id(), 0);
    let first = conn.request_plain(&mut state, vec![1, 2, 3, 4]).unwrap();
    assert_eq!(first[0], 0xef);
    assert_eq!(first[1], 6);
    // An authenticated envelope is always a whole number of words.
    let sealed = conn.request(&mut state, vec![1, 2, 3]).unwrap();
    assert_eq!(sealed[0] as usize * 4, sealed.len() - 1);
}
