use greeder::ipc::{decode_feed_id, feed_id_message, parse_i32, DecodeError};
use greeder::types::{uuid_text, Key};

#[test]
fn feed_id_message_writes_decimal() {
    assert_eq!(feed_id_message(0), b"0".to_vec());
    assert_eq!(feed_id_message(42), b"42".to_vec());
    assert_eq!(feed_id_message(-17), b"-17".to_vec());
    assert_eq!(feed_id_message(i32::MAX), b"2147483647".to_vec());
    assert_eq!(feed_id_message(i32::MIN), b"-2147483648".to_vec());
}

#[test]
fn decode_feed_id_reads_what_was_sent() {
    for id in [0, 1, 9, 10, 12345, -1, -99, i32::MAX, i32::MIN] {
        assert_eq!(decode_feed_id(&feed_id_message(id)), Ok(id));
        assert_eq!(format!("{}", id).into_bytes(), feed_id_message(id));
    }
}

#[test]
fn decode_feed_id_trims_and_rejects() {
    assert_eq!(decode_feed_id(b" 15\n"), Ok(15));
    assert_eq!(decode_feed_id(b"+15"), Ok(15));
    assert_eq!(decode_feed_id(&[0xff, 0x31]), Err(DecodeError::InvalidInput));
    assert_eq!(decode_feed_id(b""), Err(DecodeError::InvalidData));
    assert_eq!(decode_feed_id(b"-"), Err(DecodeError::InvalidData));
    assert_eq!(decode_feed_id(b"1 2"), Err(DecodeError::InvalidData));
    assert_eq!(decode_feed_id(b"2147483648"), Err(DecodeError::InvalidData));
    assert_eq!(decode_feed_id(b"99999999999999999999"), Err(DecodeError::InvalidData));
}

#[test]
fn parse_i32_matches_std() {
    for s in ["0", "-0", "+7", "007", "-2147483648", "2147483647", "2147483648", "", "+", "-", "1_000", " 1", "1a", "١"] {
        assert_eq!(parse_i32(s), s.parse::<i32>().ok(), "{}", s);
    }
}

#[test]
fn uuid_text_is_hyphenated_lower_hex() {
    assert_eq!(uuid_text(0x550e8400e29b41d4a716446655440000), "550e8400-e29b-41d4-a716-446655440000");
    assert_eq!(uuid_text(0), "00000000-0000-0000-0000-000000000000");
    assert_eq!(uuid_text(u128::MAX), "ffffffff-ffff-ffff-ffff-ffffffffffff");
    let u = uuid::Uuid::new_v5(&uuid::Uuid::NAMESPACE_X500, b"x");
    assert_eq!(uuid_text(u.as_u128()), u.hyphenated().to_string());
    assert_eq!(Key::from_uuid(u.as_u128()).as_str(), u.to_string());
}
