//! Wire protocol types and their binary encoding.
//!
//! Two message shapes cross the connection.  The client sends `Message`
//! (only `Start`, carrying the encoded job description) exactly once; the
//! worker answers with a stream of `IterValue` events: zero or more
//! `Value`s, then exactly one terminal `EndOfIter` or `Exception`.
//! Payload bytes are opaque to this layer.
//!
//! The encoding is fixed-width little-endian: a 4-byte variant tag, then
//! for a byte field an 8-byte length and the bytes, for a text field an
//! 8-byte length and its UTF-8 bytes.  Decoding accepts exactly the
//! encodings: anything short, long, unknown or ill-formed is rejected
//! with the precise error stated below.

use vstd::bytes::lemma_auto_spec_u32_to_from_le_bytes;
use vstd::bytes::lemma_auto_spec_u64_to_from_le_bytes;
use vstd::bytes::spec_u32_from_le_bytes;
use vstd::bytes::spec_u32_to_le_bytes;
use vstd::bytes::spec_u64_from_le_bytes;
use vstd::bytes::spec_u64_to_le_bytes;
use vstd::bytes::u32_from_le_bytes;
use vstd::bytes::u32_to_le_bytes;
use vstd::bytes::u64_from_le_bytes;
use vstd::bytes::u64_to_le_bytes;
use vstd::prelude::*;
use vstd::slice::slice_subrange;
use vstd::slice::slice_to_vec;
use vstd::utf8::encode_utf8;
use vstd::utf8::encode_utf8_decode_utf8;
use vstd::utf8::encode_utf8_valid_utf8;
use vstd::utf8::decode_utf8;
use vstd::utf8::valid_utf8;

verus! {

/// One event of a job's stream, worker to client.
#[derive(Debug, Clone, PartialEq, Eq)]
pub enum IterValue {
    /// One produced value, already encoded by the value codec.
    Value(Vec<u8>),
    /// The job's sequence is exhausted; terminal.
    EndOfIter,
    /// The job or a codec step failed, with a description; terminal.
    Exception(String),
}

/// The client's one message to the worker.
#[derive(Debug, Clone, PartialEq, Eq)]
pub enum Message {
    /// Run this codec-encoded job description.
    Start(Vec<u8>),
}

/// Mathematical shape of an `IterValue`.
pub enum IterValueView {
    Value(Seq<u8>),
    EndOfIter,
    Exception(Seq<char>),
}

/// Mathematical shape of a `Message`.
pub enum MessageView {
    Start(Seq<u8>),
}

impl View for IterValue {
    type V = IterValueView;

    open spec fn view(&self) -> IterValueView {
        match self {
            IterValue::Value(payload) => IterValueView::Value(payload@),
            IterValue::EndOfIter => IterValueView::EndOfIter,
            IterValue::Exception(text) => IterValueView::Exception(text@),
        }
    }
}

impl View for Message {
    type V = MessageView;

    open spec fn view(&self) -> MessageView {
        match self {
            Message::Start(payload) => MessageView::Start(payload@),
        }
    }
}

impl IterValueView {
    /// Terminal events end the stream: everything but `Value`.
    pub open spec fn is_terminal(self) -> bool {
        !(self is Value)
    }
}

/// Why a byte string failed to decode as a wire message.
#[derive(Clone, Copy, Debug, PartialEq, Eq, Structural)]
pub enum WireError {
    /// Fewer bytes than the tag or an announced length requires.
    Truncated,
    /// Bytes left over after a complete message.
    TrailingBytes,
    /// The variant tag is none of the known ones.
    UnknownTag,
    /// A text field is not valid UTF-8.
    InvalidText,
}

/// A length-prefixed byte field: an 8-byte little-endian length, then the
/// bytes themselves.
pub open spec fn encoded_bytes_field(payload: Seq<u8>) -> Seq<u8> {
    spec_u64_to_le_bytes(payload.len() as u64) + payload
}

/// The encoding of one stream event.  Tags follow the variants' order of
/// declaration: `Value` 0, `EndOfIter` 1, `Exception` 2.
pub open spec fn encoded_event(v: IterValueView) -> Seq<u8> {
    match v {
        IterValueView::Value(payload) => spec_u32_to_le_bytes(0u32) + encoded_bytes_field(
            payload,
        ),
        IterValueView::EndOfIter => spec_u32_to_le_bytes(1u32),
        IterValueView::Exception(text) => spec_u32_to_le_bytes(2u32) + encoded_bytes_field(
            encode_utf8(text),
        ),
    }
}

/// The encoding of the client's message.  `Start` is tag 0.
pub open spec fn encoded_message(m: MessageView) -> Seq<u8> {
    match m {
        MessageView::Start(payload) => spec_u32_to_le_bytes(0u32) + encoded_bytes_field(payload),
    }
}

/// Reads a whole byte string as one length-prefixed field, or says how it
/// fails: this is the standard a field decoder is held to.
pub open spec fn decoded_bytes_field(bytes: Seq<u8>) -> Result<Seq<u8>, WireError> {
    if bytes.len() < 8 {
        Err(WireError::Truncated)
    } else {
        let announced = spec_u64_from_le_bytes(bytes.subrange(0, 8));
        if bytes.len() - 8 < announced {
            Err(WireError::Truncated)
        } else if bytes.len() - 8 > announced {
            Err(WireError::TrailingBytes)
        } else {
            Ok(bytes.subrange(8, bytes.len() as int))
        }
    }
}

/// Reads a whole byte string as one stream event, or says how it fails:
/// this is the standard `decode_iter_value` is held to.
pub open spec fn decoded_event(bytes: Seq<u8>) -> Result<IterValueView, WireError> {
    if bytes.len() < 4 {
        Err(WireError::Truncated)
    } else {
        let tag = spec_u32_from_le_bytes(bytes.subrange(0, 4));
        let rest = bytes.subrange(4, bytes.len() as int);
        if tag == 0 {
            match decoded_bytes_field(rest) {
                Ok(payload) => Ok(IterValueView::Value(payload)),
                Err(e) => Err(e),
            }
        } else if tag == 1 {
            if rest.len() == 0 {
                Ok(IterValueView::EndOfIter)
            } else {
                Err(WireError::TrailingBytes)
            }
        } else if tag == 2 {
            match decoded_bytes_field(rest) {
                Ok(utf8) => if valid_utf8(utf8) {
                    Ok(IterValueView::Exception(decode_utf8(utf8)))
                } else {
                    Err(WireError::InvalidText)
                },
                Err(e) => Err(e),
            }
        } else {
            Err(WireError::UnknownTag)
        }
    }
}

/// Reads a whole byte string as the client's message, or says how it
/// fails: this is the standard `decode_message` is held to.
pub open spec fn decoded_message(bytes: Seq<u8>) -> Result<MessageView, WireError> {
    if bytes.len() < 4 {
        Err(WireError::Truncated)
    } else {
        let tag = spec_u32_from_le_bytes(bytes.subrange(0, 4));
        let rest = bytes.subrange(4, bytes.len() as int);
        if tag == 0 {
            match decoded_bytes_field(rest) {
                Ok(payload) => Ok(MessageView::Start(payload)),
                Err(e) => Err(e),
            }
        } else {
            Err(WireError::UnknownTag)
        }
    }
}

/// Appends tag and length-prefixed field to `out`.
fn push_tagged_field(out: &mut Vec<u8>, tag: u32, field: &[u8])
    ensures
        final(out)@ == old(out)@ + spec_u32_to_le_bytes(tag) + encoded_bytes_field(field@),
{
    let tag_bytes = u32_to_le_bytes(tag);
    out.extend_from_slice(tag_bytes.as_slice());
    let len_bytes = u64_to_le_bytes(field.len() as u64);
    out.extend_from_slice(len_bytes.as_slice());
    out.extend_from_slice(field);
    proof {
        assert(out@ =~= old(out)@ + spec_u32_to_le_bytes(tag) + encoded_bytes_field(field@));
    }
}

/// Encodes one stream event.
pub fn encode_iter_value(v: &IterValue) -> (r: Vec<u8>)
    ensures
        r@ == encoded_event(v@),
{
    let mut out: Vec<u8> = Vec::new();
    match v {
        IterValue::Value(payload) => {
            push_tagged_field(&mut out, 0u32, payload.as_slice());
        },
        IterValue::EndOfIter => {
            let tag_bytes = u32_to_le_bytes(1u32);
            out.extend_from_slice(tag_bytes.as_slice());
            proof {
                assert(out@ =~= encoded_event(v@));
            }
        },
        IterValue::Exception(text) => {
            push_tagged_field(&mut out, 2u32, text.as_str().as_bytes());
        },
    }
    out
}

/// Encodes the client's message.
pub fn encode_message(m: &Message) -> (r: Vec<u8>)
    ensures
        r@ == encoded_message(m@),
{
    let mut out: Vec<u8> = Vec::new();
    match m {
        Message::Start(payload) => {
            push_tagged_field(&mut out, 0u32, payload.as_slice());
        },
    }
    out
}

/// Relies on `String::from_utf8`: it succeeds exactly on valid UTF-8, and
/// the string it returns is the one those bytes encode.
#[verifier::external_body]
fn bytes_to_string(v: Vec<u8>) -> (r: Option<String>)
    ensures
        r matches Some(s) ==> encode_utf8(s@) == v@,
        valid_utf8(v@) ==> r is Some,
{
    match String::from_utf8(v) {
        Ok(s) => Some(s),
        Err(_) => None,
    }
}

/// Splits a whole byte string into one length-prefixed field.
fn decode_bytes_field(bytes: &[u8]) -> (res: Result<Vec<u8>, WireError>)
    ensures
        res matches Ok(payload) ==> decoded_bytes_field(bytes@) == Ok::<Seq<u8>, WireError>(
            payload@,
        ),
        res matches Err(e) ==> decoded_bytes_field(bytes@) == Err::<Seq<u8>, WireError>(e),
{
    if bytes.len() < 8 {
        return Err(WireError::Truncated);
    }
    let header = slice_subrange(bytes, 0, 8);
    let announced = u64_from_le_bytes(header);
    let avail: u64 = (bytes.len() - 8) as u64;
    if avail < announced {
        Err(WireError::Truncated)
    } else if avail > announced {
        Err(WireError::TrailingBytes)
    } else {
        let payload_slice = slice_subrange(bytes, 8, bytes.len());
        Ok(slice_to_vec(payload_slice))
    }
}

/// Decodes a whole byte string as one stream event; accepts exactly the
/// encodings and reports, to the letter of `decoded_event`, why not.
pub fn decode_iter_value(bytes: &[u8]) -> (res: Result<IterValue, WireError>)
    ensures
        res matches Ok(v) ==> decoded_event(bytes@) == Ok::<IterValueView, WireError>(v@),
        res matches Err(e) ==> decoded_event(bytes@) == Err::<IterValueView, WireError>(e),
{
    if bytes.len() < 4 {
        return Err(WireError::Truncated);
    }
    let tag_slice = slice_subrange(bytes, 0, 4);
    let tag = u32_from_le_bytes(tag_slice);
    let rest = slice_subrange(bytes, 4, bytes.len());
    if tag == 0 {
        match decode_bytes_field(rest) {
            Ok(payload) => Ok(IterValue::Value(payload)),
            Err(e) => Err(e),
        }
    } else if tag == 1 {
        if rest.len() == 0 {
            Ok(IterValue::EndOfIter)
        } else {
            Err(WireError::TrailingBytes)
        }
    } else if tag == 2 {
        match decode_bytes_field(rest) {
            Ok(utf8) => {
                let ghost utf8_bytes = utf8@;
                match bytes_to_string(utf8) {
                    Some(text) => {
                        proof {
                            encode_utf8_valid_utf8(text@);
                            encode_utf8_decode_utf8(text@);
                            assert(decode_utf8(utf8_bytes) == text@);
                        }
                        Ok(IterValue::Exception(text))
                    },
                    None => Err(WireError::InvalidText),
                }
            },
            Err(e) => Err(e),
        }
    } else {
        Err(WireError::UnknownTag)
    }
}

/// Decodes a whole byte string as the client's message; accepts exactly
/// the encodings and reports, to the letter of `decoded_message`, why not.
pub fn decode_message(bytes: &[u8]) -> (res: Result<Message, WireError>)
    ensures
        res matches Ok(m) ==> decoded_message(bytes@) == Ok::<MessageView, WireError>(m@),
        res matches Err(e) ==> decoded_message(bytes@) == Err::<MessageView, WireError>(e),
{
    if bytes.len() < 4 {
        return Err(WireError::Truncated);
    }
    let tag_slice = slice_subrange(bytes, 0, 4);
    let tag = u32_from_le_bytes(tag_slice);
    let rest = slice_subrange(bytes, 4, bytes.len());
    if tag == 0 {
        match decode_bytes_field(rest) {
            Ok(payload) => Ok(Message::Start(payload)),
            Err(e) => Err(e),
        }
    } else {
        Err(WireError::UnknownTag)
    }
}

/// A length-prefixed field reads back what it was built from.
pub proof fn lemma_bytes_field_round_trip(payload: Seq<u8>)
    requires
        payload.len() <= u64::MAX,
    ensures
        decoded_bytes_field(encoded_bytes_field(payload)) == Ok::<Seq<u8>, WireError>(payload),
{
    lemma_auto_spec_u64_to_from_le_bytes();
    let enc = encoded_bytes_field(payload);
    assert(enc.subrange(0, 8) =~= spec_u64_to_le_bytes(payload.len() as u64));
    assert(enc.subrange(8, enc.len() as int) =~= payload);
}

/// Law: event round trip.  Every encoded event decodes back to itself, so
/// the encoding is unambiguous.
pub proof fn lemma_event_round_trip(v: IterValueView)
    requires
        event_encodable(v),
    ensures
        decoded_event(encoded_event(v)) == Ok::<IterValueView, WireError>(v),
{
    lemma_auto_spec_u32_to_from_le_bytes();
    broadcast use encode_utf8_valid_utf8;
    broadcast use encode_utf8_decode_utf8;

    let enc = encoded_event(v);
    match v {
        IterValueView::Value(payload) => {
            assert(enc.subrange(0, 4) =~= spec_u32_to_le_bytes(0u32));
            assert(enc.subrange(4, enc.len() as int) =~= encoded_bytes_field(payload));
            lemma_bytes_field_round_trip(payload);
        },
        IterValueView::EndOfIter => {
            assert(enc.subrange(0, 4) =~= spec_u32_to_le_bytes(1u32));
            assert(enc.subrange(4, enc.len() as int) =~= Seq::<u8>::empty());
        },
        IterValueView::Exception(text) => {
            assert(enc.subrange(0, 4) =~= spec_u32_to_le_bytes(2u32));
            assert(enc.subrange(4, enc.len() as int) =~= encoded_bytes_field(encode_utf8(text)));
            lemma_bytes_field_round_trip(encode_utf8(text));
        },
    }
}

/// Law: message round trip.
pub proof fn lemma_message_round_trip(m: MessageView)
    requires
        message_encodable(m),
    ensures
        decoded_message(encoded_message(m)) == Ok::<MessageView, WireError>(m),
{
    lemma_auto_spec_u32_to_from_le_bytes();
    let enc = encoded_message(m);
    match m {
        MessageView::Start(payload) => {
            assert(enc.subrange(0, 4) =~= spec_u32_to_le_bytes(0u32));
            assert(enc.subrange(4, enc.len() as int) =~= encoded_bytes_field(payload));
            lemma_bytes_field_round_trip(payload);
        },
    }
}

/// An event's fields are small enough for their lengths to be announced
/// in the 8-byte header.  Every value an exec `IterValue` can hold is.
pub open spec fn event_encodable(v: IterValueView) -> bool {
    match v {
        IterValueView::Value(payload) => payload.len() <= u64::MAX,
        IterValueView::EndOfIter => true,
        IterValueView::Exception(text) => encode_utf8(text).len() <= u64::MAX,
    }
}

/// A message's field is small enough for its length header.
pub open spec fn message_encodable(m: MessageView) -> bool {
    match m {
        MessageView::Start(payload) => payload.len() <= u64::MAX,
    }
}

} // verus!
