//! Framing codec: length-prefixed byte frames on a stream.
//!
//! One frame is an 8-byte little-endian unsigned length followed by
//! exactly that many payload bytes.  A frame is fully buffered before it
//! is interpreted; a short read is an error.  No maximum frame size is
//! imposed at this layer.

use vstd::bytes::lemma_auto_spec_u64_to_from_le_bytes;
use vstd::bytes::spec_u64_from_le_bytes;
use vstd::bytes::spec_u64_to_le_bytes;
use vstd::bytes::u64_from_le_bytes;
use vstd::bytes::u64_to_le_bytes;
use vstd::prelude::*;
use vstd::slice::slice_subrange;
use vstd::slice::slice_to_vec;

verus! {

/// The bytes of one frame: the payload's length as 8 little-endian bytes,
/// then the payload itself.
pub open spec fn frame_seq(payload: Seq<u8>) -> Seq<u8> {
    spec_u64_to_le_bytes(payload.len() as u64) + payload
}

/// True when a whole frame starts at `at` in `bytes`: the 8 header bytes
/// are present and so are the payload bytes the header announces.
pub open spec fn frame_readable(bytes: Seq<u8>, at: int) -> bool {
    &&& 0 <= at
    &&& at + 8 <= bytes.len()
    &&& at + 8 + frame_header_len(bytes, at) <= bytes.len()
}

/// The length announced by the frame header that starts at `at`.
pub open spec fn frame_header_len(bytes: Seq<u8>, at: int) -> u64 {
    spec_u64_from_le_bytes(bytes.subrange(at, at + 8))
}

/// The payload of the frame that starts at `at`.
pub open spec fn frame_payload(bytes: Seq<u8>, at: int) -> Seq<u8> {
    bytes.subrange(at + 8, at + 8 + frame_header_len(bytes, at))
}

/// The position just past the frame that starts at `at`.
pub open spec fn frame_end(bytes: Seq<u8>, at: int) -> int {
    at + 8 + frame_header_len(bytes, at)
}

/// Reading a frame can fail only for want of bytes: either the 8 header
/// bytes are not all there, or the payload the header announces is not.
#[derive(Clone, Copy, Debug, PartialEq, Eq, Structural)]
pub enum FrameError {
    ShortRead,
}

/// Appends one frame holding `payload` to the output buffer.
pub fn write_bytes(w: &mut Vec<u8>, payload: &Vec<u8>)
    requires
        old(w)@.len() + 8 + payload@.len() <= usize::MAX,
    ensures
        final(w)@ == old(w)@ + frame_seq(payload@),
{
    proof {
        lemma_auto_spec_u64_to_from_le_bytes();
    }
    let header = u64_to_le_bytes(payload.len() as u64);
    w.extend_from_slice(header.as_slice());
    w.extend_from_slice(payload.as_slice());
    proof {
        assert(w@ =~= old(w)@ + frame_seq(payload@));
    }
}

/// Reads the frame that starts at `from`, returning its payload and the
/// position just past it; fails exactly when no whole frame is there.
pub fn read_bytes(r: &[u8], from: usize) -> (res: Result<(Vec<u8>, usize), FrameError>)
    ensures
        res is Ok <==> frame_readable(r@, from as int),
        res matches Ok((payload, next)) ==> {
            &&& payload@ == frame_payload(r@, from as int)
            &&& next as int == frame_end(r@, from as int)
        },
        res is Err ==> res == Err::<(Vec<u8>, usize), FrameError>(FrameError::ShortRead),
{
    if from > r.len() || r.len() - from < 8 {
        return Err(FrameError::ShortRead);
    }
    let header = slice_subrange(r, from, from + 8);
    let announced = u64_from_le_bytes(header);
    let avail: u64 = (r.len() - from - 8) as u64;
    if announced > avail {
        return Err(FrameError::ShortRead);
    }
    let len = announced as usize;
    let payload_slice = slice_subrange(r, from + 8, from + 8 + len);
    let payload = slice_to_vec(payload_slice);
    Ok((payload, from + 8 + len))
}

/// The length a frame header announces: its 8 bytes read as a
/// little-endian unsigned integer.  For a caller that pulls the header
/// and the payload off a stream separately.
pub fn frame_header_value(header: &[u8]) -> (n: u64)
    requires
        header@.len() == 8,
    ensures
        n == spec_u64_from_le_bytes(header@),
{
    u64_from_le_bytes(header)
}

/// Splits a byte stream at its first frame: the frame's payload and the
/// bytes after it, or nothing when no whole frame starts the stream.
pub open spec fn take_frame(bytes: Seq<u8>) -> Option<(Seq<u8>, Seq<u8>)> {
    if frame_readable(bytes, 0) {
        Some((frame_payload(bytes, 0), bytes.subrange(frame_end(bytes, 0), bytes.len() as int)))
    } else {
        None
    }
}

/// A frame at the head of a stream splits off exactly, whatever follows.
pub proof fn lemma_take_frame(payload: Seq<u8>, after: Seq<u8>)
    requires
        payload.len() <= u64::MAX,
    ensures
        take_frame(frame_seq(payload) + after) == Some((payload, after)),
{
    lemma_auto_spec_u64_to_from_le_bytes();
    lemma_frame_round_trip(Seq::empty(), payload, after);
    let stream = frame_seq(payload) + after;
    assert(stream =~= Seq::empty() + frame_seq(payload) + after);
    assert(stream.subrange(frame_end(stream, 0), stream.len() as int) =~= after);
}

/// Law: a frame written into a stream reads back exactly.  Whatever bytes
/// follow it, the frame placed at `at` is readable, yields the payload it
/// was built from, and ends where the trailing bytes begin.
pub proof fn lemma_frame_round_trip(before: Seq<u8>, payload: Seq<u8>, after: Seq<u8>)
    requires
        payload.len() <= u64::MAX,
    ensures
        ({
            let stream = before + frame_seq(payload) + after;
            let at = before.len() as int;
            &&& frame_readable(stream, at)
            &&& frame_payload(stream, at) == payload
            &&& frame_end(stream, at) == at + 8 + payload.len()
        }),
{
    lemma_auto_spec_u64_to_from_le_bytes();
    let stream = before + frame_seq(payload) + after;
    let at = before.len() as int;
    assert(stream.subrange(at, at + 8) =~= spec_u64_to_le_bytes(payload.len() as u64));
    assert(frame_header_len(stream, at) == payload.len());
    assert(stream.subrange(at + 8, at + 8 + payload.len()) =~= payload);
}

} // verus!
