//! Streaming of a remote job's values over a framed byte protocol.
//!
//! A job runs in a separate worker process and produces values one at a
//! time.  The two processes speak a framed binary protocol over a single
//! byte stream: the client sends one start message, the worker answers
//! with a sequence of events ending in exactly one terminal event.  This
//! crate holds the protocol itself — framing, message encoding, the
//! worker-side streaming loop, connection backoff, the client-side bridge
//! and consumer, and the worker handle's lifecycle — each stated and
//! proved over plain values.  Process spawning, sockets and the job
//! runtime live outside and drive these functions.

pub mod bridge;
pub mod connect;
pub mod frame;
pub mod session;
pub mod server;
pub mod wire;
pub mod worker;
