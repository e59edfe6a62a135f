use hojo::bridge::{
    bridge_step, consumer_step, BridgeStep, ConsumerStep, PullEvent, PULL_TIMEOUT_MS,
    QUEUE_CAPACITY,
};
use hojo::frame::read_bytes;
use hojo::server::{emit_reply, handle_start, StepOutcome};
use hojo::wire::{IterValue, WireError};

/// Runs the client side over a finished byte stream: splits frames,
/// decodes them as the bridge would, and feeds the consumer, returning
/// the yielded values and how the sequence ended.
fn consume_stream(stream: &[u8]) -> (Vec<Vec<u8>>, Option<Result<(), String>>) {
    let mut queue: Vec<IterValue> = Vec::new();
    let mut pos = 0usize;
    loop {
        let read = match read_bytes(stream, pos) {
            Ok((payload, next)) => {
                pos = next;
                Some(payload)
            }
            Err(_) => None,
        };
        match bridge_step(read) {
            BridgeStep::Forward(ev) => queue.push(ev),
            BridgeStep::ForwardLast(ev) => {
                queue.push(ev);
                break;
            }
            BridgeStep::Stop => break,
        }
    }
    let mut yielded: Vec<Vec<u8>> = Vec::new();
    let mut pulls = queue.into_iter();
    loop {
        let pulled = match pulls.next() {
            Some(ev) => PullEvent::Received(ev),
            None => PullEvent::Closed,
        };
        match consumer_step(pulled) {
            ConsumerStep::Yield(v) => yielded.push(v),
            ConsumerStep::Finish => return (yielded, Some(Ok(()))),
            ConsumerStep::Fail(text) => return (yielded, Some(Err(text))),
            ConsumerStep::Poll => continue,
        }
    }
}

#[test]
fn ordering_values_then_completion() {
    let mut stream: Vec<u8> = Vec::new();
    assert!(!emit_reply(&mut stream, StepOutcome::Yielded(vec![1])));
    assert!(!emit_reply(&mut stream, StepOutcome::Yielded(vec![2, 2])));
    assert!(!emit_reply(&mut stream, StepOutcome::Yielded(vec![3, 3, 3])));
    assert!(emit_reply(&mut stream, StepOutcome::Finished));
    let (yielded, end) = consume_stream(stream.as_slice());
    assert_eq!(yielded, vec![vec![1], vec![2, 2], vec![3, 3, 3]]);
    assert_eq!(end, Some(Ok(())));
}

#[test]
fn failure_after_two_values() {
    let mut stream: Vec<u8> = Vec::new();
    assert!(!emit_reply(&mut stream, StepOutcome::Yielded(vec![10])));
    assert!(!emit_reply(&mut stream, StepOutcome::Yielded(vec![20])));
    assert!(emit_reply(&mut stream, StepOutcome::Raised(String::from("boom"))));
    let (yielded, end) = consume_stream(stream.as_slice());
    assert_eq!(yielded, vec![vec![10], vec![20]]);
    assert_eq!(end, Some(Err(String::from("boom"))));
}

#[test]
fn severed_mid_stream_ends_without_terminal() {
    let mut stream: Vec<u8> = Vec::new();
    assert!(!emit_reply(&mut stream, StepOutcome::Yielded(vec![1])));
    let mut second: Vec<u8> = Vec::new();
    assert!(!emit_reply(&mut second, StepOutcome::Yielded(vec![2])));
    // The worker dies mid-write: only part of the second frame arrives.
    stream.extend_from_slice(&second[..second.len() - 1]);
    let (yielded, end) = consume_stream(stream.as_slice());
    assert_eq!(yielded, vec![vec![1]]);
    assert_eq!(end, Some(Ok(())));
}

#[test]
fn empty_stream_is_an_empty_sequence() {
    let (yielded, end) = consume_stream(&[]);
    assert_eq!(yielded, Vec::<Vec<u8>>::new());
    assert_eq!(end, Some(Ok(())));
}

#[test]
fn undecodable_frame_stops_the_bridge() {
    let mut stream: Vec<u8> = Vec::new();
    assert!(!emit_reply(&mut stream, StepOutcome::Yielded(vec![5])));
    // A whole frame whose payload has an unknown tag.
    hojo::frame::write_bytes(&mut stream, &vec![9, 0, 0, 0]);
    let mut after: Vec<u8> = Vec::new();
    assert!(!emit_reply(&mut after, StepOutcome::Yielded(vec![6])));
    stream.extend_from_slice(after.as_slice());
    let (yielded, end) = consume_stream(stream.as_slice());
    assert_eq!(yielded, vec![vec![5]]);
    assert_eq!(end, Some(Ok(())));
}

#[test]
fn timeout_polls_again() {
    assert_eq!(consumer_step(PullEvent::TimedOut), ConsumerStep::Poll);
    assert_eq!(consumer_step(PullEvent::Closed), ConsumerStep::Finish);
}

#[test]
fn bridge_forwards_failure_and_keeps_reading() {
    let payload = hojo::wire::encode_iter_value(&IterValue::Exception(String::from("late")));
    match bridge_step(Some(payload)) {
        BridgeStep::Forward(IterValue::Exception(text)) => assert_eq!(text, "late"),
        other => panic!("unexpected step: {:?}", other),
    }
}

#[test]
fn handshake_reaches_the_server_loop() {
    let frame = hojo::connect::start_frame(vec![0xDE, 0xAD]);
    let (payload, next) = read_bytes(frame.as_slice(), 0).unwrap();
    assert_eq!(next, frame.len());
    assert_eq!(handle_start(payload.as_slice()), Ok(vec![0xDE, 0xAD]));
}

#[test]
fn start_payload_with_bad_tag_is_a_protocol_error() {
    assert_eq!(handle_start(&[3, 0, 0, 0]), Err(WireError::UnknownTag));
}

#[test]
fn bounded_queue_and_poll_interval_are_fixed() {
    assert_eq!(QUEUE_CAPACITY, 16);
    assert_eq!(PULL_TIMEOUT_MS, 500);
}

#[test]
fn emit_reply_writes_exact_frames() {
    let mut out: Vec<u8> = Vec::new();
    assert!(!emit_reply(&mut out, StepOutcome::Yielded(vec![0xAA])));
    // One frame: 13-byte payload = tag 0, length 1, the byte itself.
    assert_eq!(
        out,
        vec![13, 0, 0, 0, 0, 0, 0, 0, 0, 0, 0, 0, 1, 0, 0, 0, 0, 0, 0, 0, 0xAA]
    );
    let mut end: Vec<u8> = Vec::new();
    assert!(emit_reply(&mut end, StepOutcome::Finished));
    assert_eq!(end, vec![4, 0, 0, 0, 0, 0, 0, 0, 1, 0, 0, 0]);
}

#[test]
fn job_with_no_values_completes_cleanly() {
    let mut stream: Vec<u8> = Vec::new();
    assert!(emit_reply(&mut stream, StepOutcome::Finished));
    let (yielded, end) = consume_stream(stream.as_slice());
    assert_eq!(yielded, Vec::<Vec<u8>>::new());
    assert_eq!(end, Some(Ok(())));
}

#[test]
fn failure_with_no_values_surfaces_alone() {
    let mut stream: Vec<u8> = Vec::new();
    assert!(emit_reply(&mut stream, StepOutcome::Raised(String::from("no start"))));
    let (yielded, end) = consume_stream(stream.as_slice());
    assert_eq!(yielded, Vec::<Vec<u8>>::new());
    assert_eq!(end, Some(Err(String::from("no start"))));
}
