//! End-to-end laws of one job session.
//!
//! A session is: the worker loop answers each outcome with one frame
//! (`server_stream`), the bridge turns the byte stream back into events
//! (`bridged_events`), and the consumer turns events into the caller's
//! sequence (`consumed_values`, `consumed_end`).  The laws here follow
//! one job's bytes all the way through: values arrive in order with
//! nothing lost, doubled or reordered; a failure arrives after exactly
//! the values yielded before it; a severed connection ends the sequence
//! with exactly the values that made it across.

use crate::bridge::StreamEnd;
use crate::bridge::bridged_events;
use crate::bridge::consumed_end;
use crate::bridge::consumed_values;
use crate::bridge::lemma_consumed_split;
use crate::frame::frame_header_len;
use crate::frame::frame_readable;
use crate::frame::frame_seq;
use crate::frame::lemma_take_frame;
use crate::frame::take_frame;
use crate::server::StepOutcomeView;
use crate::server::event_of_outcome;
use crate::server::lemma_server_stream_split;
use crate::server::server_stream;
use crate::server::value_frames;
use crate::wire::IterValueView;
use crate::wire::encoded_event;
use crate::wire::event_encodable;
use crate::wire::lemma_event_round_trip;
use vstd::bytes::lemma_auto_spec_u32_to_from_le_bytes;
use vstd::bytes::lemma_auto_spec_u64_to_from_le_bytes;
use vstd::bytes::spec_u64_to_le_bytes;
use vstd::prelude::*;

verus! {

/// An event small enough that its encoding fits behind a frame header.
pub open spec fn event_frameable(ev: IterValueView) -> bool {
    &&& event_encodable(ev)
    &&& encoded_event(ev).len() <= u64::MAX
}

/// Each value in the run is small enough to frame.
pub open spec fn values_frameable(values: Seq<Seq<u8>>) -> bool {
    forall|i: int|
        0 <= i < values.len() ==> event_frameable(
            IterValueView::Value(#[trigger] values[i]),
        )
}

/// The bridge forwards a run of value frames one by one, in order, and
/// then goes on with whatever bytes follow.
pub proof fn lemma_bridged_value_frames(values: Seq<Seq<u8>>, tail: Seq<u8>)
    requires
        values_frameable(values),
    ensures
        bridged_events(value_frames(values) + tail) == values.map_values(
            |v: Seq<u8>| IterValueView::Value(v),
        ) + bridged_events(tail),
    decreases values.len(),
{
    lemma_auto_spec_u32_to_from_le_bytes();
    lemma_auto_spec_u64_to_from_le_bytes();
    let mapped = values.map_values(|v: Seq<u8>| IterValueView::Value(v));
    if values.len() == 0 {
        assert(value_frames(values) + tail =~= tail);
        assert(mapped + bridged_events(tail) =~= bridged_events(tail));
    } else {
        let ev = IterValueView::Value(values[0]);
        let enc = encoded_event(ev);
        let rest = value_frames(values.drop_first()) + tail;
        assert(event_frameable(ev));
        assert(value_frames(values) + tail =~= frame_seq(enc) + rest);
        lemma_take_frame(enc, rest);
        lemma_event_round_trip(ev);
        assert(bridged_events(value_frames(values) + tail) == seq![ev] + bridged_events(rest));
        lemma_bridged_value_frames(values.drop_first(), tail);
        assert(mapped.drop_first() =~= values.drop_first().map_values(
            |v: Seq<u8>| IterValueView::Value(v),
        ));
        assert(bridged_events(value_frames(values) + tail) =~= mapped + bridged_events(tail));
    }
}

/// The one frame of a lone terminal outcome comes through as that one
/// event.
proof fn lemma_bridged_terminal(outcome: StepOutcomeView)
    requires
        event_frameable(event_of_outcome(outcome)),
        event_of_outcome(outcome).is_terminal(),
    ensures
        bridged_events(server_stream(seq![outcome])) == seq![event_of_outcome(outcome)],
{
    let ev = event_of_outcome(outcome);
    let enc = encoded_event(ev);
    assert(server_stream(seq![outcome]) =~= frame_seq(enc) + Seq::<u8>::empty());
    lemma_take_frame(enc, Seq::empty());
    lemma_event_round_trip(ev);
    if !(ev is EndOfIter) {
        assert(!frame_readable(Seq::<u8>::empty(), 0));
        assert(bridged_events(Seq::<u8>::empty()) =~= Seq::<IterValueView>::empty());
        assert(seq![ev] + bridged_events(Seq::<u8>::empty()) =~= seq![ev]);
    }
}

/// Law: ordering.  For a job that yields `values` and then completes,
/// the caller sees exactly those values, in that order, and then a clean
/// end of sequence: nothing is dropped, doubled or reordered.
pub proof fn lemma_stream_ordering(values: Seq<Seq<u8>>)
    requires
        values_frameable(values),
    ensures
        ({
            let outcomes = values.map_values(|v: Seq<u8>| StepOutcomeView::Yielded(v)) + seq![
                StepOutcomeView::Finished,
            ];
            let events = bridged_events(server_stream(outcomes));
            &&& events == values.map_values(|v: Seq<u8>| IterValueView::Value(v)) + seq![
                IterValueView::EndOfIter,
            ]
            &&& consumed_values(events) == values
            &&& consumed_end(events) == StreamEnd::Completed
        }),
{
    lemma_auto_spec_u32_to_from_le_bytes();
    let suffix = seq![StepOutcomeView::Finished];
    lemma_server_stream_split(values, suffix);
    lemma_bridged_terminal(StepOutcomeView::Finished);
    lemma_bridged_value_frames(values, server_stream(suffix));
    lemma_consumed_split(values, seq![IterValueView::EndOfIter]);
    let events = bridged_events(server_stream(values.map_values(
        |v: Seq<u8>| StepOutcomeView::Yielded(v),
    ) + suffix));
    assert(events =~= values.map_values(|v: Seq<u8>| IterValueView::Value(v)) + seq![
        IterValueView::EndOfIter,
    ]);
    assert(consumed_values(events) =~= values + consumed_values(seq![IterValueView::EndOfIter]));
    assert(consumed_values(seq![IterValueView::EndOfIter]) =~= Seq::<Seq<u8>>::empty());
    assert(consumed_values(events) =~= values);
}

/// Law: failure propagation.  For a job that yields `values` and then
/// raises, the caller sees exactly those values, then one failure with
/// the raised description, and nothing after it.
pub proof fn lemma_failure_propagation(values: Seq<Seq<u8>>, text: Seq<char>)
    requires
        values_frameable(values),
        event_frameable(IterValueView::Exception(text)),
    ensures
        ({
            let outcomes = values.map_values(|v: Seq<u8>| StepOutcomeView::Yielded(v)) + seq![
                StepOutcomeView::Raised(text),
            ];
            let events = bridged_events(server_stream(outcomes));
            &&& events == values.map_values(|v: Seq<u8>| IterValueView::Value(v)) + seq![
                IterValueView::Exception(text),
            ]
            &&& consumed_values(events) == values
            &&& consumed_end(events) == StreamEnd::Failed(text)
        }),
{
    let suffix = seq![StepOutcomeView::Raised(text)];
    lemma_server_stream_split(values, suffix);
    lemma_bridged_terminal(StepOutcomeView::Raised(text));
    lemma_bridged_value_frames(values, server_stream(suffix));
    lemma_consumed_split(values, seq![IterValueView::Exception(text)]);
    let events = bridged_events(server_stream(values.map_values(
        |v: Seq<u8>| StepOutcomeView::Yielded(v),
    ) + suffix));
    assert(events =~= values.map_values(|v: Seq<u8>| IterValueView::Value(v)) + seq![
        IterValueView::Exception(text),
    ]);
    assert(consumed_values(seq![IterValueView::Exception(text)])
        =~= Seq::<Seq<u8>>::empty());
    assert(consumed_values(events) =~= values);
}

/// Law: disconnection.  If the stream is severed after the value frames
/// — the tail carries no whole decodable frame — the caller sees exactly
/// the values that crossed, and the sequence ends rather than hangs,
/// marked as severed, not as a clean completion.
pub proof fn lemma_severed_stream(values: Seq<Seq<u8>>, tail: Seq<u8>)
    requires
        values_frameable(values),
        bridged_events(tail) == Seq::<IterValueView>::empty(),
    ensures
        ({
            let events = bridged_events(value_frames(values) + tail);
            &&& events == values.map_values(|v: Seq<u8>| IterValueView::Value(v))
            &&& consumed_values(events) == values
            &&& consumed_end(events) == StreamEnd::Severed
        }),
{
    lemma_bridged_value_frames(values, tail);
    lemma_consumed_split(values, Seq::empty());
    let events = bridged_events(value_frames(values) + tail);
    assert(events =~= values.map_values(|v: Seq<u8>| IterValueView::Value(v)) + Seq::<
        IterValueView,
    >::empty());
    assert(consumed_values(events) =~= values + Seq::<Seq<u8>>::empty());
    assert(consumed_values(events) =~= values);
}

/// A frame cut short — any proper prefix of it — yields no event: a
/// partial frame left on a severed connection is a tail
/// `lemma_severed_stream` accepts.
pub proof fn lemma_partial_frame_severs(payload: Seq<u8>, cut: int)
    requires
        payload.len() <= u64::MAX,
        0 <= cut < frame_seq(payload).len(),
    ensures
        bridged_events(frame_seq(payload).take(cut)) == Seq::<IterValueView>::empty(),
{
    lemma_auto_spec_u64_to_from_le_bytes();
    let part = frame_seq(payload).take(cut);
    if cut < 8 {
        assert(!frame_readable(part, 0));
    } else {
        assert(part.subrange(0, 8) =~= frame_seq(payload).subrange(0, 8));
        assert(frame_seq(payload).subrange(0, 8) =~= spec_u64_to_le_bytes(payload.len() as u64));
        assert(frame_header_len(part, 0) == payload.len());
        assert(!frame_readable(part, 0));
    }
    assert(take_frame(part) is None);
}

} // verus!
