//! A persistent, single-process, multi-topic FIFO message queue.
//!
//! A topic's records live in sequentially numbered append-only chunk files,
//! each holding a run of framed records, while an embedded transactional
//! key-value index binds the producer tail state, the consumer read position,
//! and the per-chunk record counts into a single atomic unit.
//!
//! The modules split the work as follows:
//! - [`frame`] encodes and decodes the fixed 12-byte record frames;
//! - [`chunk_name`] derives the on-disk name of a chunk file;
//! - [`store`] is the trusted boundary around the embedded key-value store;
//! - [`producer`] appends batches and rotates the tail chunk;
//! - [`consumer`] dequeues records, advances the durable cursor, and
//!   reclaims chunks beyond the retention window;
//! - [`laws`] states and proves the queue-wide properties.

pub mod chunk_name;
pub mod consumer;
pub mod frame;
pub mod laws;
pub mod producer;
pub mod store;

use vstd::prelude::*;

verus! {

/// A dequeued record: the timestamp taken when the record was framed
/// (seconds since the Unix epoch) and the opaque payload bytes.
pub struct Item {
    pub ts: u64,
    pub data: Vec<u8>,
}

/// The kinds of failure an operation can report.
#[derive(Clone, Copy, Debug, PartialEq, Eq, Structural)]
pub enum QueueError {
    /// The underlying key-value store reported a failure.
    Index,
    /// A chunk file operation failed.
    Io,
    /// A frame header could not be read, its length overran the file,
    /// or its timestamp fell outside the sanity window.
    Frame,
    /// A required index key was absent or inconsistent; the caller
    /// should not continue.
    Invariant,
}

impl QueueError {
    /// A short description of the error kind.
    pub fn describe(&self) -> (r: &'static str)
        ensures
            r@ == match *self {
                QueueError::Index => "index store failure"@,
                QueueError::Io => "chunk file i/o failure"@,
                QueueError::Frame => "bad record frame"@,
                QueueError::Invariant => "index invariant violated"@,
            },
    {
        match *self {
            QueueError::Index => "index store failure",
            QueueError::Io => "chunk file i/o failure",
            QueueError::Frame => "bad record frame",
            QueueError::Invariant => "index invariant violated",
        }
    }
}

} // verus!
