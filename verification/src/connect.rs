//! Connection establishment: bounded retry with backoff, and the
//! handshake.
//!
//! After spawning the worker process, the client tries to connect to the
//! worker's socket path a fixed number of times, sleeping before each
//! attempt with exponentially growing delays.  If every attempt fails,
//! establishment gives up with a timeout error and a full cleanup of the
//! half-started worker — no orphaned process, no leftover socket path.
//! On success the client sends the one start frame.  The sleeps and the
//! socket itself are the holder's; this module fixes the schedule, the
//! give-up decision and the handshake bytes.

use crate::frame::frame_seq;
use crate::frame::write_bytes;
use crate::wire::Message;
use crate::wire::MessageView;
use crate::wire::encode_message;
use crate::wire::encoded_message;
use crate::worker::CleanupPlan;
use vstd::prelude::*;

verus! {

/// How many connection attempts are made before giving up.
pub const CONNECT_ATTEMPTS: u64 = 5;

/// The sleep before the first attempt, in milliseconds; each further
/// attempt doubles it.
pub const INITIAL_BACKOFF_MS: u64 = 10;

/// The sleep before attempt number `attempt` (counted from 0), in
/// milliseconds: the initial delay doubled once per earlier attempt.
pub open spec fn backoff_ms(attempt: int) -> int
    decreases attempt,
{
    if attempt <= 0 {
        INITIAL_BACKOFF_MS as int
    } else {
        2 * backoff_ms(attempt - 1)
    }
}

/// The whole sleep across the first `attempts` attempts, in
/// milliseconds.
pub open spec fn total_backoff_ms(attempts: int) -> int
    decreases attempts,
{
    if attempts <= 0 {
        0
    } else {
        total_backoff_ms(attempts - 1) + backoff_ms(attempts - 1)
    }
}

/// What the client does next, `attempts` failed attempts in: sleep this
/// many milliseconds and try once more, or give up and tear the
/// half-started worker fully down.
#[derive(Clone, Copy, Debug, PartialEq, Eq, Structural)]
pub enum ConnectAction {
    TryAfter(u64),
    GiveUp(CleanupPlan),
}

/// Decides the next step of connection establishment.  Every give-up
/// carries the full cleanup plan: establishment never abandons the
/// process or the socket path.
pub fn next_connect_action(attempts: u64) -> (action: ConnectAction)
    ensures
        attempts < CONNECT_ATTEMPTS ==> action == ConnectAction::TryAfter(
            backoff_ms(attempts as int) as u64,
        ),
        attempts >= CONNECT_ATTEMPTS ==> action == ConnectAction::GiveUp(CleanupPlan::full()),
{
    proof {
        reveal_with_fuel(backoff_ms, 6);
    }
    if attempts == 0 {
        ConnectAction::TryAfter(10)
    } else if attempts == 1 {
        ConnectAction::TryAfter(20)
    } else if attempts == 2 {
        ConnectAction::TryAfter(40)
    } else if attempts == 3 {
        ConnectAction::TryAfter(80)
    } else if attempts == 4 {
        ConnectAction::TryAfter(160)
    } else {
        ConnectAction::GiveUp(CleanupPlan { kill_process: true, remove_socket: true })
    }
}

/// The bytes of the handshake: the job description, wrapped in the start
/// message, in one frame.
pub fn start_frame(job: Vec<u8>) -> (r: Vec<u8>)
    requires
        job@.len() + 20 <= usize::MAX,
    ensures
        r@ == frame_seq(encoded_message(MessageView::Start(job@))),
{
    let encoded = encode_message(&Message::Start(job));
    let mut out: Vec<u8> = Vec::new();
    proof {
        vstd::bytes::lemma_auto_spec_u32_to_from_le_bytes();
        vstd::bytes::lemma_auto_spec_u64_to_from_le_bytes();
    }
    write_bytes(&mut out, &encoded);
    proof {
        assert(out@ =~= frame_seq(encoded.view()));
    }
    out
}

/// Law: bounded connect.  The retry schedule is finite and known — 10,
/// 20, 40, 80, 160 — and its whole sleep is 310 milliseconds, so when no
/// worker ever listens, establishment fails within that bound instead of
/// hanging; `next_connect_action` guarantees the failure comes with a
/// full cleanup, leaving no orphaned process or socket path.
pub proof fn lemma_bounded_connect()
    ensures
        backoff_ms(0) == 10,
        backoff_ms(1) == 20,
        backoff_ms(2) == 40,
        backoff_ms(3) == 80,
        backoff_ms(4) == 160,
        total_backoff_ms(CONNECT_ATTEMPTS as int) == 310,
{
    reveal_with_fuel(backoff_ms, 6);
    reveal_with_fuel(total_backoff_ms, 6);
    assert(total_backoff_ms(5) == 310);
}

} // verus!
