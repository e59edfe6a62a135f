use hojo::frame::{read_bytes, write_bytes, FrameError};

#[test]
fn frame_round_trip_empty_payload() {
    let mut out: Vec<u8> = Vec::new();
    write_bytes(&mut out, &Vec::new());
    assert_eq!(out, vec![0u8; 8]);
    let (payload, next) = read_bytes(out.as_slice(), 0).unwrap();
    assert_eq!(payload, Vec::<u8>::new());
    assert_eq!(next, 8);
}

#[test]
fn frame_round_trip_small_payload() {
    let mut out: Vec<u8> = Vec::new();
    write_bytes(&mut out, &vec![9u8, 8, 7]);
    assert_eq!(out, vec![3, 0, 0, 0, 0, 0, 0, 0, 9, 8, 7]);
    let (payload, next) = read_bytes(out.as_slice(), 0).unwrap();
    assert_eq!(payload, vec![9u8, 8, 7]);
    assert_eq!(next, out.len());
}

#[test]
fn frame_round_trip_many_lengths() {
    for n in 0..300usize {
        let payload: Vec<u8> = (0..n).map(|i| (i % 251) as u8).collect();
        let mut out: Vec<u8> = Vec::new();
        write_bytes(&mut out, &payload);
        let (back, next) = read_bytes(out.as_slice(), 0).unwrap();
        assert_eq!(back, payload);
        assert_eq!(next, 8 + n);
    }
}

#[test]
fn frames_concatenate_and_read_in_order() {
    let mut out: Vec<u8> = Vec::new();
    write_bytes(&mut out, &vec![1u8]);
    write_bytes(&mut out, &vec![2u8, 2]);
    write_bytes(&mut out, &vec![]);
    let (a, next) = read_bytes(out.as_slice(), 0).unwrap();
    let (b, next) = read_bytes(out.as_slice(), next).unwrap();
    let (c, next) = read_bytes(out.as_slice(), next).unwrap();
    assert_eq!(a, vec![1u8]);
    assert_eq!(b, vec![2u8, 2]);
    assert_eq!(c, Vec::<u8>::new());
    assert_eq!(next, out.len());
    assert_eq!(read_bytes(out.as_slice(), next), Err(FrameError::ShortRead));
}

#[test]
fn short_header_is_an_error() {
    let buf = vec![1u8, 0, 0];
    assert_eq!(read_bytes(buf.as_slice(), 0), Err(FrameError::ShortRead));
}

#[test]
fn short_payload_is_an_error() {
    // The header announces 5 bytes; only 2 follow.
    let buf = vec![5u8, 0, 0, 0, 0, 0, 0, 0, 1, 2];
    assert_eq!(read_bytes(buf.as_slice(), 0), Err(FrameError::ShortRead));
}

#[test]
fn reading_past_the_end_is_an_error() {
    let buf = vec![0u8; 8];
    assert_eq!(read_bytes(buf.as_slice(), 9), Err(FrameError::ShortRead));
}
