use hojo::wire::{
    decode_iter_value, decode_message, encode_iter_value, encode_message, IterValue, Message,
    WireError,
};

#[test]
fn value_encodes_to_exact_bytes() {
    let bytes = encode_iter_value(&IterValue::Value(vec![0xAB, 0xCD]));
    assert_eq!(bytes, vec![0, 0, 0, 0, 2, 0, 0, 0, 0, 0, 0, 0, 0xAB, 0xCD]);
}

#[test]
fn end_of_iter_encodes_to_exact_bytes() {
    let bytes = encode_iter_value(&IterValue::EndOfIter);
    assert_eq!(bytes, vec![1, 0, 0, 0]);
}

#[test]
fn exception_encodes_to_exact_bytes() {
    let bytes = encode_iter_value(&IterValue::Exception(String::from("hi")));
    assert_eq!(bytes, vec![2, 0, 0, 0, 2, 0, 0, 0, 0, 0, 0, 0, b'h', b'i']);
}

#[test]
fn start_encodes_to_exact_bytes() {
    let bytes = encode_message(&Message::Start(vec![7, 8]));
    assert_eq!(bytes, vec![0, 0, 0, 0, 2, 0, 0, 0, 0, 0, 0, 0, 7, 8]);
}

#[test]
fn event_round_trip_value() {
    let v = IterValue::Value(vec![1, 2, 3]);
    assert_eq!(decode_iter_value(encode_iter_value(&v).as_slice()), Ok(v));
}

#[test]
fn event_round_trip_end() {
    let v = IterValue::EndOfIter;
    assert_eq!(decode_iter_value(encode_iter_value(&v).as_slice()), Ok(v));
}

#[test]
fn event_round_trip_exception() {
    let v = IterValue::Exception(String::from("worker failed: division by zero"));
    assert_eq!(decode_iter_value(encode_iter_value(&v).as_slice()), Ok(v));
}

#[test]
fn event_round_trip_exception_non_ascii() {
    // A multi-byte character proves the text really is decoded from its
    // UTF-8 bytes, not handed through.
    let v = IterValue::Exception(String::from("café ≠ cafe"));
    let encoded = encode_iter_value(&v);
    assert_ne!(encoded[12..].to_vec().len(), "café ≠ cafe".chars().count());
    assert_eq!(decode_iter_value(encoded.as_slice()), Ok(v));
}

#[test]
fn message_round_trip() {
    let m = Message::Start(vec![42; 100]);
    assert_eq!(decode_message(encode_message(&m).as_slice()), Ok(m));
}

#[test]
fn empty_input_is_truncated() {
    assert_eq!(decode_iter_value(&[]), Err(WireError::Truncated));
    assert_eq!(decode_message(&[]), Err(WireError::Truncated));
}

#[test]
fn unknown_tag_is_rejected() {
    assert_eq!(decode_iter_value(&[9, 0, 0, 0]), Err(WireError::UnknownTag));
    assert_eq!(decode_message(&[1, 0, 0, 0]), Err(WireError::UnknownTag));
}

#[test]
fn missing_length_header_is_truncated() {
    // Tag 0 (a value) with only 3 of the 8 length bytes.
    assert_eq!(decode_iter_value(&[0, 0, 0, 0, 5, 0, 0]), Err(WireError::Truncated));
}

#[test]
fn announced_length_larger_than_body_is_truncated() {
    let bytes = vec![0, 0, 0, 0, 4, 0, 0, 0, 0, 0, 0, 0, 1, 2];
    assert_eq!(decode_iter_value(bytes.as_slice()), Err(WireError::Truncated));
}

#[test]
fn announced_length_smaller_than_body_is_trailing() {
    let bytes = vec![0, 0, 0, 0, 1, 0, 0, 0, 0, 0, 0, 0, 1, 2];
    assert_eq!(decode_iter_value(bytes.as_slice()), Err(WireError::TrailingBytes));
}

#[test]
fn bytes_after_end_of_iter_are_trailing() {
    assert_eq!(decode_iter_value(&[1, 0, 0, 0, 0]), Err(WireError::TrailingBytes));
}

#[test]
fn invalid_utf8_in_exception_is_rejected() {
    let bytes = vec![2, 0, 0, 0, 1, 0, 0, 0, 0, 0, 0, 0, 0xFF];
    assert_eq!(decode_iter_value(bytes.as_slice()), Err(WireError::InvalidText));
}

#[test]
fn empty_value_round_trips() {
    let v = IterValue::Value(Vec::new());
    let encoded = encode_iter_value(&v);
    assert_eq!(encoded, vec![0, 0, 0, 0, 0, 0, 0, 0, 0, 0, 0, 0]);
    assert_eq!(decode_iter_value(encoded.as_slice()), Ok(v));
}

#[test]
fn empty_exception_text_round_trips() {
    let v = IterValue::Exception(String::new());
    assert_eq!(decode_iter_value(encode_iter_value(&v).as_slice()), Ok(v));
}

#[test]
fn empty_start_round_trips() {
    let m = Message::Start(Vec::new());
    assert_eq!(decode_message(encode_message(&m).as_slice()), Ok(m));
}
