use sculptor::codec::{decode_c2s, decode_s2c, encode_c2s, encode_s2c, C2SMessage, MessageLoadError, S2CMessage};
use sculptor::codec::MessageLoadError::{BadEnum, BadLength};

#[test]
fn message_load_error_display() {
    assert_eq!(
        BadEnum("foo", 3, 5, 7).message(),
        "invalid value of foo: must be 3 to 5 inclusive, got 7"
    );
    assert_eq!(
        BadLength("bar", 17, false, 12).message(),
        "buffer wrong size for bar: must be at least 17 bytes, got 12"
    );
    assert_eq!(
        BadLength("bar", 17, true, 19).message(),
        "buffer wrong size for bar: must be exactly 17 bytes, got 19"
    );
}

#[test]
fn errors_message_load_error_display() {
    assert_eq!(
        BadEnum("foo", 3, 5, 7).message(),
        "invalid value of foo: must be 3 to 5 inclusive, got 7"
    );
    assert_eq!(
        BadLength("bar", 17, false, 12).message(),
        "buffer wrong size for bar: must be at least 17 bytes, got 12"
    );
    assert_eq!(
        BadLength("bar", 17, true, 19).message(),
        "buffer wrong size for bar: must be exactly 17 bytes, got 19"
    );
}

const UUID_A: u128 = 0x11111111_1111_1111_1111_111111111111;

#[test]
fn c2s_round_trip_all_variants() {
    let msgs = vec![
        C2SMessage::Token(b"0a1b2c".to_vec()),
        C2SMessage::Token(Vec::new()),
        C2SMessage::Ping(1, false, vec![0xde, 0xad]),
        C2SMessage::Ping(252645133, true, vec![0, 1]),
        C2SMessage::Sub(UUID_A),
        C2SMessage::Unsub(UUID_A),
    ];
    for m in msgs {
        let bytes = encode_c2s(&m);
        assert_eq!(decode_c2s(&bytes).unwrap(), m);
    }
}

#[test]
fn s2c_round_trip_all_variants() {
    let msgs = vec![
        S2CMessage::Auth,
        S2CMessage::Ping(UUID_A, 1, false, vec![0xde, 0xad]),
        S2CMessage::Ping(UUID_A, 7, true, Vec::new()),
        S2CMessage::Event(UUID_A),
        S2CMessage::Toast(2, b"You're banned!".to_vec(), None),
        S2CMessage::Toast(1, b"hello".to_vec(), Some(b"world".to_vec())),
        S2CMessage::Toast(1, b"t".to_vec(), Some(Vec::new())),
        S2CMessage::Chat(b"hi there".to_vec()),
        S2CMessage::Notice(9),
    ];
    for m in msgs {
        let bytes = encode_s2c(&m);
        assert_eq!(decode_s2c(&bytes).unwrap(), m);
    }
}

#[test]
fn c2s_ping_wire_layout() {
    let m = C2SMessage::Ping(1, false, vec![0xde, 0xad]);
    assert_eq!(encode_c2s(&m), vec![0x01, 0x00, 0x00, 0x00, 0x01, 0x00, 0xde, 0xad]);
}

#[test]
fn s2c_ping_wire_layout() {
    let m = S2CMessage::Ping(UUID_A, 1, false, vec![0xde, 0xad]);
    let mut expected = vec![0x01];
    expected.extend_from_slice(&UUID_A.to_be_bytes());
    expected.extend_from_slice(&[0x00, 0x00, 0x00, 0x01, 0x00, 0xde, 0xad]);
    assert_eq!(encode_s2c(&m), expected);
}

#[test]
fn ping_payload_of_length_zero_round_trips() {
    let m = C2SMessage::Ping(5, true, Vec::new());
    let bytes = encode_c2s(&m);
    assert_eq!(bytes.len(), 6);
    let back = decode_c2s(&bytes).unwrap();
    assert_eq!(back, m);
    assert_eq!(encode_c2s(&back), bytes);
}

#[test]
fn short_ping_frame_is_bad_length() {
    let err = decode_c2s(&[0x01, 0x00, 0x00]).unwrap_err();
    assert_eq!(err, MessageLoadError::BadLength("C2SMessage::Ping", 6, false, 3));
}

#[test]
fn sub_frame_must_be_exactly_17_bytes() {
    let err = decode_c2s(&[0x02; 19]).unwrap_err();
    assert_eq!(err, MessageLoadError::BadLength("C2SMessage::Sub", 17, true, 19));
}

#[test]
fn unknown_tag_is_bad_enum() {
    let err = decode_c2s(&[9, 0, 0]).unwrap_err();
    assert_eq!(err, MessageLoadError::BadEnum("C2SMessage.type", 0, 3, 9));
    let err = decode_s2c(&[77]).unwrap_err();
    assert_eq!(err, MessageLoadError::BadEnum("S2CMessage.type", 0, 5, 77));
}

#[test]
fn empty_frame_is_bad_length() {
    let err = decode_c2s(&[]).unwrap_err();
    assert_eq!(err, MessageLoadError::BadLength("C2SMessage", 1, false, 0));
    let err = decode_s2c(&[]).unwrap_err();
    assert_eq!(err, MessageLoadError::BadLength("S2CMessage", 1, false, 0));
}

#[test]
fn s2c_auth_is_one_byte() {
    assert_eq!(encode_s2c(&S2CMessage::Auth), vec![0x00]);
    assert_eq!(decode_s2c(&[0x00]).unwrap(), S2CMessage::Auth);
    let err = decode_s2c(&[0x00, 0x00]).unwrap_err();
    assert_eq!(err, MessageLoadError::BadLength("S2CMessage::Auth", 1, true, 2));
}

#[test]
fn toast_title_splits_at_first_zero() {
    let bytes = vec![0x03, 0x02, b'a', b'b', 0x00, b'c', 0x00, b'd'];
    let m = decode_s2c(&bytes).unwrap();
    assert_eq!(m, S2CMessage::Toast(2, b"ab".to_vec(), Some(vec![b'c', 0x00, b'd'])));
}
