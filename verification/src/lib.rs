//! Deterministic stand-ins for thread spawn, join and thread-local storage.
//!
//! Logical threads are units of cooperatively scheduled work: exactly one of
//! them runs at any instant, and every scheduling decision is an explicit
//! call. The same program can therefore be replayed under many interleavings.

pub mod local;
pub mod notify;
pub mod outcome;
pub mod thread;
