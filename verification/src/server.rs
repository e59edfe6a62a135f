//! Worker-side execution loop, over plain values.
//!
//! The spawned process runs one job: it accepts one connection, reads one
//! frame, decodes the start message, then drives the job's iterator and
//! answers with one frame per outcome.  The job runtime itself (and the
//! socket) live outside; this module decides what each received payload
//! means and which bytes go back for each outcome, and states what the
//! whole emitted stream looks like.  The loop is fail-fast: a value is
//! followed by more frames, a terminal outcome is the last frame.

use crate::frame::frame_seq;
use crate::frame::write_bytes;
use crate::wire::IterValue;
use crate::wire::IterValueView;
use crate::wire::Message;
use crate::wire::MessageView;
use crate::wire::WireError;
use crate::wire::decode_message;
use crate::wire::decoded_message;
use crate::wire::encode_iter_value;
use crate::wire::encoded_event;
use vstd::prelude::*;

verus! {

/// One answer of the job runtime when asked for the next value.
#[derive(Debug, Clone, PartialEq, Eq)]
pub enum StepOutcome {
    /// The iterator produced a value, already encoded by the value codec.
    Yielded(Vec<u8>),
    /// The iterator is exhausted.
    Finished,
    /// The job (or a codec step) failed, with a description.
    Raised(String),
}

/// Mathematical shape of a `StepOutcome`.
pub enum StepOutcomeView {
    Yielded(Seq<u8>),
    Finished,
    Raised(Seq<char>),
}

impl View for StepOutcome {
    type V = StepOutcomeView;

    open spec fn view(&self) -> StepOutcomeView {
        match self {
            StepOutcome::Yielded(payload) => StepOutcomeView::Yielded(payload@),
            StepOutcome::Finished => StepOutcomeView::Finished,
            StepOutcome::Raised(text) => StepOutcomeView::Raised(text@),
        }
    }
}

/// The event the worker reports for one outcome.
pub open spec fn event_of_outcome(o: StepOutcomeView) -> IterValueView {
    match o {
        StepOutcomeView::Yielded(payload) => IterValueView::Value(payload),
        StepOutcomeView::Finished => IterValueView::EndOfIter,
        StepOutcomeView::Raised(text) => IterValueView::Exception(text),
    }
}

/// The bytes the loop sends for a run over these outcomes: one frame per
/// outcome, stopping just after the first terminal one.
pub open spec fn server_stream(outcomes: Seq<StepOutcomeView>) -> Seq<u8>
    decreases outcomes.len(),
{
    if outcomes.len() == 0 {
        Seq::empty()
    } else {
        let ev = event_of_outcome(outcomes[0]);
        frame_seq(encoded_event(ev)) + if ev.is_terminal() {
            Seq::<u8>::empty()
        } else {
            server_stream(outcomes.drop_first())
        }
    }
}

/// The frames of a run of produced values alone, none terminal.
pub open spec fn value_frames(values: Seq<Seq<u8>>) -> Seq<u8>
    decreases values.len(),
{
    if values.len() == 0 {
        Seq::empty()
    } else {
        frame_seq(encoded_event(IterValueView::Value(values[0]))) + value_frames(
            values.drop_first(),
        )
    }
}

/// A run over values then a closing suffix sends the value frames, then
/// whatever the suffix alone would send.
pub proof fn lemma_server_stream_split(values: Seq<Seq<u8>>, suffix: Seq<StepOutcomeView>)
    ensures
        server_stream(values.map_values(|v: Seq<u8>| StepOutcomeView::Yielded(v)) + suffix)
            == value_frames(values) + server_stream(suffix),
    decreases values.len(),
{
    let outcomes = values.map_values(|v: Seq<u8>| StepOutcomeView::Yielded(v)) + suffix;
    if values.len() == 0 {
        assert(outcomes =~= suffix);
        assert(value_frames(values) + server_stream(suffix) =~= server_stream(suffix));
    } else {
        let tail = values.drop_first();
        assert(outcomes[0] == StepOutcomeView::Yielded(values[0]));
        assert(outcomes.drop_first() =~= tail.map_values(
            |v: Seq<u8>| StepOutcomeView::Yielded(v),
        ) + suffix);
        lemma_server_stream_split(tail, suffix);
        assert(server_stream(outcomes) =~= value_frames(values) + server_stream(suffix));
    }
}

/// Decodes the first frame's payload as the start message and hands back
/// the encoded job description; rejects exactly what `decoded_message`
/// rejects, with the same error.
pub fn handle_start(payload: &[u8]) -> (res: Result<Vec<u8>, WireError>)
    ensures
        res matches Ok(job) ==> decoded_message(payload@) == Ok::<MessageView, WireError>(
            MessageView::Start(job@),
        ),
        res matches Err(e) ==> decoded_message(payload@) == Err::<MessageView, WireError>(e),
{
    match decode_message(payload) {
        Ok(Message::Start(job)) => Ok(job),
        Err(e) => Err(e),
    }
}

/// Appends the one frame that reports this outcome and says whether the
/// loop is done: true exactly for a terminal outcome.
pub fn emit_reply(out: &mut Vec<u8>, outcome: StepOutcome) -> (done: bool)
    requires
        old(out)@.len() + 8 + encoded_event(event_of_outcome(outcome@)).len() <= usize::MAX,
    ensures
        final(out)@ == old(out)@ + frame_seq(encoded_event(event_of_outcome(outcome@))),
        done == event_of_outcome(outcome@).is_terminal(),
{
    let (event, done) = match outcome {
        StepOutcome::Yielded(payload) => (IterValue::Value(payload), false),
        StepOutcome::Finished => (IterValue::EndOfIter, true),
        StepOutcome::Raised(text) => (IterValue::Exception(text), true),
    };
    let encoded = encode_iter_value(&event);
    write_bytes(out, &encoded);
    done
}

} // verus!
