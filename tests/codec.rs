use bincode::config::standard;
use ceylon::{CodecError, DataMessage, DataType, StatusMessage, StatusType};

#[test]
fn status_join_encodes_tag_then_text() {
    let bytes = StatusMessage::new_join("hi".to_string()).encode();
    assert_eq!(bytes, vec![0, 2, b'h', b'i']);
}

#[test]
fn status_leave_encodes_tag_one() {
    let bytes = StatusMessage::new_leave(String::new()).encode();
    assert_eq!(bytes, vec![1, 0]);
}

#[test]
fn long_meta_uses_two_byte_length() {
    let meta = "x".repeat(300);
    let bytes = StatusMessage::new_join(meta.clone()).encode();
    assert_eq!(&bytes[..4], &[0, 251, 44, 1]);
    assert_eq!(bytes.len(), 4 + 300);
    assert_eq!(StatusMessage::decode(bytes), Ok(StatusMessage::new_join(meta)));
}

#[test]
fn status_round_trip() {
    for m in [
        StatusMessage::new_join(String::new()),
        StatusMessage::new_leave("peer gone".to_string()),
        StatusMessage::new(StatusType::JOIN, "héllo wörld ✓".to_string()),
    ] {
        let bytes = m.clone().encode();
        assert_eq!(StatusMessage::decode(bytes), Ok(m));
    }
}

#[test]
fn data_round_trip() {
    for m in [
        DataMessage::new(DataType::SYSTEM, Vec::new()),
        DataMessage::new(DataType::NODE, vec![0, 1, 2, 255]),
        DataMessage::new(DataType::NODE, vec![7; 70_000]),
    ] {
        let bytes = m.clone().encode();
        assert_eq!(DataMessage::decode(bytes), Ok(m));
    }
}

#[test]
fn data_encodes_tag_then_bytes() {
    let bytes = DataMessage::new(DataType::NODE, vec![9, 8, 7]).encode();
    assert_eq!(bytes, vec![1, 3, 9, 8, 7]);
}

#[test]
fn large_payload_uses_four_byte_length() {
    let bytes = DataMessage::new(DataType::SYSTEM, vec![1; 70_000]).encode();
    assert_eq!(&bytes[..6], &[0, 252, 0x70, 0x11, 0x01, 0x00]);
}

#[test]
fn decode_empty_input_is_unexpected_end() {
    assert_eq!(StatusMessage::decode(Vec::new()), Err(CodecError::UnexpectedEnd));
    assert_eq!(DataMessage::decode(Vec::new()), Err(CodecError::UnexpectedEnd));
}

#[test]
fn decode_unknown_tag_is_unexpected_variant() {
    assert_eq!(StatusMessage::decode(vec![2, 0]), Err(CodecError::UnexpectedVariant));
    assert_eq!(DataMessage::decode(vec![7, 0]), Err(CodecError::UnexpectedVariant));
}

#[test]
fn decode_wide_tag_is_invalid_integer_type() {
    assert_eq!(
        StatusMessage::decode(vec![253, 0, 0, 0, 0, 0, 0, 0, 0, 0]),
        Err(CodecError::InvalidIntegerType)
    );
    assert_eq!(DataMessage::decode(vec![255]), Err(CodecError::InvalidIntegerType));
}

#[test]
fn decode_short_payload_is_unexpected_end() {
    assert_eq!(StatusMessage::decode(vec![0, 5, b'a']), Err(CodecError::UnexpectedEnd));
    assert_eq!(DataMessage::decode(vec![1, 251, 1]), Err(CodecError::UnexpectedEnd));
}

#[test]
fn decode_bad_utf8_is_invalid_utf8() {
    assert_eq!(StatusMessage::decode(vec![0, 1, 0xff]), Err(CodecError::InvalidUtf8));
    assert_eq!(StatusMessage::decode(vec![1, 2, 0xc3, 0x28]), Err(CodecError::InvalidUtf8));
}

#[test]
fn decode_multibyte_text() {
    let m = StatusMessage::decode(vec![0, 2, 0xc3, 0xa9]).unwrap();
    assert_eq!(m.meta, "é");
    assert_eq!(m.status_type, StatusType::JOIN);
}

#[test]
fn decode_ignores_trailing_bytes() {
    let m = StatusMessage::decode(vec![1, 1, b'z', 42, 43]).unwrap();
    assert_eq!(m, StatusMessage::new_leave("z".to_string()));
    let d = DataMessage::decode(vec![0, 0, 99]).unwrap();
    assert_eq!(d, DataMessage::new(DataType::SYSTEM, Vec::new()));
}

#[test]
fn decode_accepts_non_minimal_integers() {
    let m = StatusMessage::decode(vec![251, 1, 0, 252, 1, 0, 0, 0, b'q']).unwrap();
    assert_eq!(m, StatusMessage::new_leave("q".to_string()));
}

#[test]
fn status_bytes_match_bincode_standard() {
    for (tag, meta) in [(0u32, String::new()), (1u32, "x".repeat(300)), (0u32, "ü".repeat(40_000))] {
        let expected = bincode::encode_to_vec((tag, meta.clone()), standard()).unwrap();
        let m = if tag == 0 { StatusMessage::new_join(meta) } else { StatusMessage::new_leave(meta) };
        assert_eq!(m.encode(), expected);
    }
}

#[test]
fn data_bytes_match_bincode_standard() {
    for (tag, payload) in [(0u32, vec![]), (1u32, vec![3u8; 251]), (1u32, vec![5u8; 66_000])] {
        let expected = bincode::encode_to_vec((tag, payload.clone()), standard()).unwrap();
        let kind = if tag == 0 { DataType::SYSTEM } else { DataType::NODE };
        assert_eq!(DataMessage::new(kind, payload).encode(), expected);
    }
}

#[test]
fn decodes_what_bincode_encodes() {
    let bytes = bincode::encode_to_vec((1u32, "from bincode".to_string()), standard()).unwrap();
    assert_eq!(
        StatusMessage::decode(bytes),
        Ok(StatusMessage::new_leave("from bincode".to_string()))
    );
    let bytes = bincode::encode_to_vec((0u32, vec![1u8, 2, 3]), standard()).unwrap();
    assert_eq!(
        DataMessage::decode(bytes),
        Ok(DataMessage::new(DataType::SYSTEM, vec![1, 2, 3]))
    );
}
