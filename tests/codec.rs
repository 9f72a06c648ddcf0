use chat_server::codec::{decode, encode, parse_i32, Field, FrameError, InboundMessage, IntError};

fn message(chat: i32, user: i32, content: &str, data: Option<&str>, path: Option<&str>, kind: &str) -> InboundMessage {
    InboundMessage {
        chat_id: chat,
        user_id: user,
        content: content.to_string(),
        file_data: data.map(|s| s.to_string()),
        file_path: path.map(|s| s.to_string()),
        message_type: kind.to_string(),
    }
}

#[test]
fn integer_and_string_ids_decode_alike() {
    let a = decode(r#"{"chat_id": 5, "user_id": 12, "content": "hi", "message_type": "text"}"#).unwrap();
    let b = decode(r#"{"chat_id": "5", "user_id": "12", "content": "hi", "message_type": "text"}"#).unwrap();
    assert_eq!(a.chat_id, 5);
    assert_eq!(b.chat_id, 5);
    assert_eq!(a.user_id, 12);
    assert_eq!(b.user_id, 12);
    assert_eq!(encode(&a), encode(&b));
}

#[test]
fn signed_and_zero_padded_string_ids() {
    let m = decode(r#"{"chat_id": "-3", "user_id": "+007", "content": "", "message_type": "text"}"#).unwrap();
    assert_eq!(m.chat_id, -3);
    assert_eq!(m.user_id, 7);
}

#[test]
fn non_digit_string_id_is_rejected() {
    let r = decode(r#"{"chat_id": "5a", "user_id": 1, "content": "x", "message_type": "text"}"#);
    assert_eq!(r.unwrap_err(), FrameError::InvalidInteger(Field::ChatId, IntError::InvalidDigit));
    let r = decode(r#"{"chat_id": 1, "user_id": "", "content": "x", "message_type": "text"}"#);
    assert_eq!(r.unwrap_err(), FrameError::InvalidInteger(Field::UserId, IntError::Empty));
}

#[test]
fn non_numeric_non_string_id_is_rejected() {
    let r = decode(r#"{"chat_id": true, "user_id": 1, "content": "x", "message_type": "text"}"#);
    assert_eq!(r.unwrap_err(), FrameError::InvalidType(Field::ChatId));
    let r = decode(r#"{"chat_id": 1, "user_id": 1.5, "content": "x", "message_type": "text"}"#);
    assert_eq!(r.unwrap_err(), FrameError::InvalidType(Field::UserId));
    let r = decode(r#"{"chat_id": null, "user_id": 1, "content": "x", "message_type": "text"}"#);
    assert_eq!(r.unwrap_err(), FrameError::InvalidType(Field::ChatId));
}

#[test]
fn out_of_range_string_id_is_rejected() {
    let r = decode(r#"{"chat_id": "2147483648", "user_id": 1, "content": "x", "message_type": "text"}"#);
    assert_eq!(r.unwrap_err(), FrameError::InvalidInteger(Field::ChatId, IntError::PosOverflow));
}

#[test]
fn large_integer_id_is_cut_to_32_bits() {
    let m = decode(r#"{"chat_id": 4294967301, "user_id": 1, "content": "x", "message_type": "text"}"#).unwrap();
    assert_eq!(m.chat_id, 5);
}

#[test]
fn missing_and_malformed() {
    let r = decode(r#"{"chat_id": 1, "user_id": 1, "message_type": "text"}"#);
    assert_eq!(r.unwrap_err(), FrameError::MissingField(Field::Content));
    let r = decode(r#"{"chat_id": 1, "user_id": 1, "content": "x"}"#);
    assert_eq!(r.unwrap_err(), FrameError::MissingField(Field::MessageType));
    assert_eq!(decode("not json").unwrap_err(), FrameError::Malformed);
    assert_eq!(decode("[1, 2]").unwrap_err(), FrameError::Malformed);
    let r = decode(r#"{"chat_id": 1, "user_id": 1, "content": "x", "file_path": 3, "message_type": "t"}"#);
    assert_eq!(r.unwrap_err(), FrameError::InvalidType(Field::FilePath));
}

#[test]
fn optional_members_and_unknown_kinds() {
    let m = decode(
        r#"{"chat_id": 1, "user_id": 2, "content": "c", "file_data": null, "file_path": "up/a.txt", "message_type": "sticker", "extra": 1}"#,
    )
    .unwrap();
    assert!(m.file_data.is_none());
    assert_eq!(m.file_path.as_deref(), Some("up/a.txt"));
    assert_eq!(m.message_type, "sticker");
}

#[test]
fn parse_i32_edges() {
    assert_eq!(parse_i32("2147483647"), Ok(2147483647));
    assert_eq!(parse_i32("-2147483648"), Ok(-2147483648));
    assert_eq!(parse_i32("-2147483649"), Err(IntError::NegOverflow));
    assert_eq!(parse_i32("99999999999999999999"), Err(IntError::PosOverflow));
    assert_eq!(parse_i32("-"), Err(IntError::InvalidDigit));
    assert_eq!(parse_i32("+"), Err(IntError::InvalidDigit));
    assert_eq!(parse_i32(" 1"), Err(IntError::InvalidDigit));
    assert_eq!(parse_i32(""), Err(IntError::Empty));
    assert_eq!(parse_i32("0"), Ok(0));
}

#[test]
fn encode_writes_compact_object() {
    let m = message(5, -12, "say \"hi\"", None, Some("a.txt"), "text");
    assert_eq!(
        encode(&m),
        r#"{"chat_id":5,"user_id":-12,"content":"say \"hi\"","file_data":null,"file_path":"a.txt","message_type":"text"}"#
    );
}

#[test]
fn encode_then_decode_gives_the_message_back() {
    let m = message(2147483647, -2147483648, "line\nbreak", Some("data:x;base64,AA=="), None, "file");
    let back = decode(&encode(&m)).unwrap();
    assert_eq!(back.chat_id, m.chat_id);
    assert_eq!(back.user_id, m.user_id);
    assert_eq!(back.content, m.content);
    assert_eq!(back.file_data, m.file_data);
    assert_eq!(back.file_path, m.file_path);
    assert_eq!(back.message_type, m.message_type);
}
