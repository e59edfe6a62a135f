//! Client-side streaming bridge and consumer, over plain values.
//!
//! A background task owns the read half of the connection: it reads one
//! frame at a time, decodes it as a stream event, and forwards it through
//! a bounded queue.  It stops on a read failure, on a decode failure, or
//! after forwarding `EndOfIter`.  The consumer pulls from that queue with
//! a bounded wait, so cancellation can be observed between waits: a
//! closed queue ends the sequence, a timeout asks for a cancellation
//! check, a value is yielded, a terminal event ends the sequence.  The
//! loops themselves (socket reads, the queue, the waits) run outside;
//! this module decides every step and states what a whole stream of
//! bytes comes out as.

use crate::frame::take_frame;
use crate::wire::IterValue;
use crate::wire::IterValueView;
use crate::wire::WireError;
use crate::wire::decode_iter_value;
use crate::wire::decoded_event;
use vstd::prelude::*;

verus! {

/// Capacity of the queue between the bridge and the consumer: the bridge
/// reads at most this many events ahead.
pub const QUEUE_CAPACITY: usize = 16;

/// How long one pull on the queue may wait before the consumer checks
/// for a cancellation request.
pub const PULL_TIMEOUT_MS: u64 = 500;

/// The events the bridge forwards for a given byte stream: one event per
/// whole decodable frame, stopping after `EndOfIter` and at the first
/// unreadable or undecodable frame.
pub open spec fn bridged_events(bytes: Seq<u8>) -> Seq<IterValueView>
    decreases bytes.len(),
{
    match take_frame(bytes) {
        Option::None => Seq::empty(),
        Option::Some((payload, rest)) => match decoded_event(payload) {
            Result::Err(_) => Seq::empty(),
            Result::Ok(ev) => if ev is EndOfIter {
                seq![ev]
            } else {
                seq![ev] + bridged_events(rest)
            },
        },
    }
}

/// What the bridge does with one read frame payload (`None`: the read
/// itself failed).
#[derive(Debug, PartialEq, Eq)]
pub enum BridgeStep {
    /// Forward this event, then keep reading.
    Forward(IterValue),
    /// Forward this event, then stop: the stream is complete.
    ForwardLast(IterValue),
    /// Stop without forwarding: read or decode failed, the queue closes.
    Stop,
}

/// Decides one step of the background task, exactly as `bridged_events`
/// counts it: a decodable frame is forwarded, `EndOfIter` is forwarded
/// last, anything else stops the task.
pub fn bridge_step(read: Option<Vec<u8>>) -> (step: BridgeStep)
    ensures
        match step {
            BridgeStep::Forward(ev) => {
                &&& read matches Some(payload) && decoded_event(payload@) == Ok::<
                    IterValueView,
                    WireError,
                >(ev@)
                &&& !(ev@ is EndOfIter)
            },
            BridgeStep::ForwardLast(ev) => {
                &&& read matches Some(payload) && decoded_event(payload@) == Ok::<
                    IterValueView,
                    WireError,
                >(ev@)
                &&& ev@ is EndOfIter
            },
            BridgeStep::Stop => read matches Some(payload) ==> decoded_event(payload@) is Err,
        },
        step is Stop <==> (read is None || decoded_event(read.unwrap()@) is Err),
{
    match read {
        Option::None => BridgeStep::Stop,
        Option::Some(payload) => match decode_iter_value(payload.as_slice()) {
            Result::Err(_) => BridgeStep::Stop,
            Result::Ok(ev) => match &ev {
                IterValue::EndOfIter => BridgeStep::ForwardLast(ev),
                _ => BridgeStep::Forward(ev),
            },
        },
    }
}

/// How a caller's sequence ends.
pub enum StreamEnd {
    /// The worker reported `EndOfIter`: a clean end.
    Completed,
    /// The worker reported a failure with this description.
    Failed(Seq<char>),
    /// The queue closed with no terminal event: the connection was
    /// severed first, observed as an implicit end of stream.
    Severed,
}

/// The values the consumer yields from a queue holding these events,
/// in order: every value before the first terminal event.
pub open spec fn consumed_values(events: Seq<IterValueView>) -> Seq<Seq<u8>>
    decreases events.len(),
{
    if events.len() == 0 {
        Seq::empty()
    } else {
        match events[0] {
            IterValueView::Value(payload) => seq![payload] + consumed_values(events.drop_first()),
            _ => Seq::empty(),
        }
    }
}

/// How the consumer's sequence ends for a queue holding these events.
pub open spec fn consumed_end(events: Seq<IterValueView>) -> StreamEnd
    decreases events.len(),
{
    if events.len() == 0 {
        StreamEnd::Severed
    } else {
        match events[0] {
            IterValueView::Value(_) => consumed_end(events.drop_first()),
            IterValueView::EndOfIter => StreamEnd::Completed,
            IterValueView::Exception(text) => StreamEnd::Failed(text),
        }
    }
}

/// Consuming a run of values then a rest yields those values, then what
/// the rest alone yields; and it ends as the rest alone ends.
pub proof fn lemma_consumed_split(values: Seq<Seq<u8>>, rest: Seq<IterValueView>)
    ensures
        consumed_values(values.map_values(|v: Seq<u8>| IterValueView::Value(v)) + rest) == values
            + consumed_values(rest),
        consumed_end(values.map_values(|v: Seq<u8>| IterValueView::Value(v)) + rest)
            == consumed_end(rest),
    decreases values.len(),
{
    let events = values.map_values(|v: Seq<u8>| IterValueView::Value(v)) + rest;
    if values.len() == 0 {
        assert(events =~= rest);
        assert(values + consumed_values(rest) =~= consumed_values(rest));
    } else {
        let tail = values.drop_first();
        assert(events[0] == IterValueView::Value(values[0]));
        assert(events.drop_first() =~= tail.map_values(|v: Seq<u8>| IterValueView::Value(v))
            + rest);
        lemma_consumed_split(tail, rest);
        assert(consumed_values(events) =~= values + consumed_values(rest));
    }
}

/// One result of pulling on the queue with a bounded wait.
#[derive(Debug, PartialEq, Eq)]
pub enum PullEvent {
    /// An event arrived.
    Received(IterValue),
    /// The wait elapsed with nothing to pull.
    TimedOut,
    /// The queue is closed: the bridge task has ended.
    Closed,
}

/// What the consumer does after one pull.
#[derive(Debug, PartialEq, Eq)]
pub enum ConsumerStep {
    /// Hand this codec-encoded value to the caller; the sequence goes on.
    Yield(Vec<u8>),
    /// The sequence is over, cleanly or by a severed connection.
    Finish,
    /// Surface this failure description to the caller; the sequence is
    /// over.
    Fail(String),
    /// Nothing yet: check for a cancellation request, then pull again.
    Poll,
}

/// Decides one step of the caller-facing iteration.  A closed queue and
/// `EndOfIter` both finish the sequence; a failure event surfaces as an
/// error; a timed-out wait only asks for a cancellation check; a value is
/// yielded as it came.
pub fn consumer_step(pulled: PullEvent) -> (step: ConsumerStep)
    ensures
        match pulled {
            PullEvent::Closed => step == ConsumerStep::Finish,
            PullEvent::TimedOut => step == ConsumerStep::Poll,
            PullEvent::Received(ev) => match ev@ {
                IterValueView::Value(payload) => step matches ConsumerStep::Yield(y) && y@
                    == payload,
                IterValueView::EndOfIter => step == ConsumerStep::Finish,
                IterValueView::Exception(text) => step matches ConsumerStep::Fail(t) && t@ == text,
            },
        },
{
    match pulled {
        PullEvent::Closed => ConsumerStep::Finish,
        PullEvent::TimedOut => ConsumerStep::Poll,
        PullEvent::Received(ev) => match ev {
            IterValue::Value(payload) => ConsumerStep::Yield(payload),
            IterValue::EndOfIter => ConsumerStep::Finish,
            IterValue::Exception(text) => ConsumerStep::Fail(text),
        },
    }
}

} // verus!
