use mtproto::error::Error;
use mtproto::network::state::{MessagePurpose, State};
use mtproto::protocol::ProtocolVersion;
use mtproto::tl::message::{Message, MessageCommon, MessagePlain};

#[test]
fn fresh_state_is_zeroed() {
    let state = State::new(ProtocolVersion::V2);
    assert_eq!(state.auth_raw_key(), &[0u8; 256]);
    assert_eq!(state.time_offset(), 0);
    assert_eq!(state.salt(), 0);
    assert_eq!(state.seq_no(), 0);
    assert_eq!(state.last_msg_id(), 0);
    assert_eq!(state.version(), ProtocolVersion::V2);
    assert!(state.can_issue());
}

#[test]
fn message_id_at_fixed_clock() {
    let mut state = State::new(ProtocolVersion::V1);
    let expected = (1_600_000_000i64 << 32) | (250_000_000i64 << 2);
    let first = state.new_message_id_at(1_600_000_000, 250_000_000);
    assert_eq!(first, expected);
    assert_eq!(first, 6_871_947_674_600_000_000);
    let second = state.new_message_id_at(1_600_000_000, 250_000_000);
    assert_eq!(second, expected + 4);
    assert_eq!(state.last_msg_id(), expected + 4);
}

#[test]
fn message_id_follows_time_offset() {
    let mut state = State::new(ProtocolVersion::V1);
    state.update_time_offset_at(1_600_000_100i64 << 32, 1_600_000_000);
    assert_eq!(state.time_offset(), 100);
    let id = state.new_message_id_at(1_600_000_000, 1);
    assert_eq!(id, (1_600_000_100i64 << 32) | 4);
}

#[test]
fn message_ids_increase_when_clock_goes_back() {
    let mut state = State::new(ProtocolVersion::V1);
    let a = state.new_message_id_at(1_600_000_000, 500);
    let b = state.new_message_id_at(1_599_999_999, 0);
    let c = state.new_message_id_at(1_600_000_001, 0);
    assert_eq!(b, a + 4);
    assert_eq!(c, 1_600_000_001i64 << 32);
    assert!(a < b && b < c);
    assert_eq!(a % 4, 0);
    assert_eq!(b % 4, 0);
    assert_eq!(c % 4, 0);
}

#[test]
fn message_ids_from_the_wall_clock_increase() {
    let mut state = State::new(ProtocolVersion::V2);
    let mut last = state.last_msg_id();
    for _ in 0..1000 {
        let id = state.new_message_id();
        assert!(id > last);
        assert_eq!(id % 4, 0);
        last = id;
    }
    assert_eq!(state.last_msg_id(), last);
}

#[test]
fn update_time_offset_at_equal_clocks() {
    let mut state = State::new(ProtocolVersion::V1);
    state.new_message_id_at(1_600_000_000, 0);
    let offset = state.update_time_offset_at(0x5F5E1000_00000000, 1_600_000_000);
    assert_eq!(0x5F5E1000i64, 1_600_000_000);
    assert_eq!(offset, 0);
    assert_eq!(state.time_offset(), 0);
    assert_eq!(state.last_msg_id(), 0);
}

#[test]
fn update_time_offset_behind_local_clock() {
    let mut state = State::new(ProtocolVersion::V1);
    let offset = state.update_time_offset_at(0x5E5E1000_00000000, 1_600_000_000);
    assert_eq!(offset, -16_777_216);
    assert_eq!(state.time_offset(), -16_777_216);
    assert_eq!(state.last_msg_id(), 0);
}

#[test]
fn update_time_offset_reads_upper_bits_unsigned() {
    let mut state = State::new(ProtocolVersion::V1);
    // The upper half is 0xF0000000 seconds; read as signed it would be negative.
    let correct = 0xF000_0000_0000_0000u64 as i64;
    let offset = state.update_time_offset_at(correct, 0xEFFF_FFF0);
    assert_eq!(offset, 16);
}

#[test]
fn update_time_offset_from_the_wall_clock_resets_ids() {
    let mut state = State::new(ProtocolVersion::V1);
    state.new_message_id();
    let offset = state.update_time_offset(0x5F5E1000_00000000);
    assert_eq!(state.time_offset(), offset);
    assert_eq!(state.last_msg_id(), 0);
}

#[test]
fn seq_no_parity() {
    let mut state = State::new(ProtocolVersion::V1);
    assert_eq!(state.next_seq_no(MessagePurpose::NonContent), 0);
    assert_eq!(state.next_seq_no(MessagePurpose::Content), 1);
    assert_eq!(state.next_seq_no(MessagePurpose::NonContent), 2);
    assert_eq!(state.next_seq_no(MessagePurpose::NonContent), 2);
    assert_eq!(state.next_seq_no(MessagePurpose::Content), 3);
    assert_eq!(state.next_seq_no(MessagePurpose::Content), 5);
    assert_eq!(state.next_seq_no(MessagePurpose::NonContent), 6);
    assert_eq!(state.seq_no(), 3);
}

#[test]
fn setters_install_key_and_salt() {
    let mut state = State::new(ProtocolVersion::V1);
    let mut key = [0u8; 256];
    for (i, byte) in key.iter_mut().enumerate() {
        *byte = i as u8;
    }
    state.set_auth_key(key);
    state.set_salt(-42);
    assert_eq!(state.auth_raw_key()[255], 255);
    assert_eq!(state.auth_raw_key()[1], 1);
    assert_eq!(state.salt(), -42);
    assert_eq!(state.last_msg_id(), 0);
}

#[test]
fn create_message_takes_id_and_seq_no() {
    let mut state = State::new(ProtocolVersion::V2);
    state.set_salt(77);
    let message: Message = state
        .create_message_at(vec![1, 2, 3, 4], MessagePurpose::Content, 1_600_000_000, 8)
        .unwrap();
    assert_eq!(message.salt, 77);
    assert_eq!(message.session_id, state.id());
    assert_eq!(message.message_id, (1_600_000_000i64 << 32) | 32);
    assert_eq!(message.seq_no, 1);
    assert_eq!(message.body, vec![1, 2, 3, 4]);
    assert_eq!(state.seq_no(), 1);
    assert_eq!(state.last_msg_id(), message.message_id);

    let plain: MessagePlain = state
        .create_message_at(vec![9], MessagePurpose::NonContent, 1_600_000_000, 8)
        .unwrap();
    assert_eq!(plain.message_id, message.message_id + 4);
    assert_eq!(plain.body, vec![9]);
    assert_eq!(state.seq_no(), 1);
}

#[test]
fn create_message_from_the_wall_clock() {
    let mut state = State::new(ProtocolVersion::V2);
    let first: MessagePlain = state.create_message(vec![0; 8], MessagePurpose::Content).unwrap();
    let second: MessagePlain = state.create_message(vec![0; 8], MessagePurpose::Content).unwrap();
    assert!(second.message_id > first.message_id);
    assert_eq!(second.message_id % 4, 0);
    assert_eq!(state.last_msg_id(), second.message_id);
    assert_eq!(state.seq_no(), 2);
}

#[test]
fn update_message_id_renews_the_id() {
    let mut state = State::new(ProtocolVersion::V1);
    let mut message = MessagePlain::new(0, 0, 12, 0, vec![5, 6, 7, 8]).unwrap();
    state.update_message_id_at(&mut message, 1_600_000_000, 0);
    assert_eq!(message.message_id, 1_600_000_000i64 << 32);
    assert_eq!(message.body, vec![5, 6, 7, 8]);
    state.update_message_id(&mut message);
    assert!(message.message_id > 1_600_000_000i64 << 32);
    assert_eq!(message.message_id, state.last_msg_id());
    assert_eq!(message.into_body(), vec![5, 6, 7, 8]);
}

#[test]
fn message_too_long_is_an_error_variant() {
    let e = Error::MessageTooLong(1usize << 33);
    assert!(matches!(e, Error::MessageTooLong(n) if n == 1usize << 33));
}
