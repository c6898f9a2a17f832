//! Producer-side index logic: lazy topic initialisation, tail discovery,
//! writer fast-forward after a restart, size-driven chunk rotation, and the
//! per-batch record-count update.
//!
//! A batch is placed in a single transaction in three steps. First
//! [`Producer::new`] (once) initialises the topic and discovers the tail
//! chunk. Then, per batch, [`Producer::sync_writer`] fast-forwards the
//! writer to the tail chunk if the index moved ahead of it, and
//! [`Producer::place_batch`] decides rotation from the tail file's size and
//! records the batch in the producer table. The caller appends the framed
//! records to the chunk file named by `writer_file` and commits.

use crate::store::cursor_entries;
use crate::store::is_tail;
use crate::store::producer_entries;
use crate::store::TopicTxn;
use crate::store::key_bytes_read;
use crate::store::key_file;
use crate::store::key_offset;
use crate::QueueError;
use vstd::prelude::*;

verus! {

/// A chunk file is rotated once it has grown past this many bytes: 64 MiB.
pub const DEFAULT_CHUNK_SIZE: u64 = 64 * 1024 * 1024;

/// The producer's own state: the rotation threshold and the chunk the
/// writer is currently appending to.
pub struct Producer {
    /// Rotate the tail chunk once its file exceeds this many bytes.
    pub chunk_size: u64,
    /// The chunk number the writer's file handle stands on.
    pub writer_file: u64,
}

/// What [`Producer::sync_writer`] found: the tail chunk, its recorded
/// count, and whether the writer's file handle must be reopened on it.
pub struct TailSnapshot {
    /// The tail chunk: the greatest key of the producer table.
    pub tail: u64,
    /// The record count stored for the tail chunk.
    pub count: u64,
    /// True when the index had moved ahead of the writer, which must now
    /// reopen its file on `tail`.
    pub reopened: bool,
}

/// Where [`Producer::place_batch`] put a batch.
pub struct Placement {
    /// The chunk that received the whole batch.
    pub target: u64,
    /// Records already in that chunk before this batch.
    pub base: u64,
    /// True when the batch opened a fresh chunk.
    pub rotated: bool,
}

/// The cursor table after lazy initialisation: head chunk 0, nothing
/// consumed.
pub open spec fn init_cursor_table(ce: Map<Seq<char>, u64>) -> Map<Seq<char>, u64> {
    ce.insert("FILE"@, 0).insert("OFFSET"@, 0).insert("BYTES_READ"@, 0)
}

impl Producer {
    /// Opens the producer side of a topic inside one transaction.
    ///
    /// On the first opening of the topic this initialises the index: cursor
    /// keys `FILE`, `OFFSET` and `BYTES_READ` all 0 and producer entry
    /// `0 -> 0`, each inserted only if absent, so concurrent initialisers
    /// converge. It then discovers the tail chunk from the greatest key of
    /// the producer table; the writer must open that chunk's file in append
    /// mode. An empty producer table is an `Invariant` error.
    pub fn new(txn: &mut TopicTxn, chunk_size: Option<u64>) -> (r: Result<Producer, QueueError>)
        ensures
            r matches Ok(p) ==> {
                &&& is_tail(producer_entries(*final(txn)), p.writer_file)
                &&& p.chunk_size == (if chunk_size is Some {
                    chunk_size->0
                } else {
                    DEFAULT_CHUNK_SIZE
                })
                &&& (cursor_entries(*old(txn)).dom().contains("FILE"@) && cursor_entries(
                    *final(txn),
                ) == cursor_entries(*old(txn)) && producer_entries(*final(txn)) == producer_entries(
                    *old(txn),
                )) || (!cursor_entries(*old(txn)).dom().contains("FILE"@) && cursor_entries(
                    *final(txn),
                ) == init_cursor_table(cursor_entries(*old(txn))) && producer_entries(*final(txn))
                    == producer_entries(*old(txn)).insert(0, 0))
            },
            cursor_entries(*old(txn)).dom().contains("FILE"@) ==> cursor_entries(*final(txn))
                == cursor_entries(*old(txn)) && producer_entries(*final(txn)) == producer_entries(
                *old(txn),
            ),
            r == Result::<Producer, QueueError>::Err(QueueError::Invariant) ==> producer_entries(
                *final(txn),
            ).dom() == Set::<u64>::empty(),
    {
        let file_present = match txn.get_cursor(key_file()) {
            Ok(Some(_)) => true,
            Ok(None) => false,
            Err(_) => {
                return Err(QueueError::Index);
            },
        };
        if !file_present {
            match txn.init_cursor(key_file(), 0) {
                Ok(_) => (),
                Err(_) => {
                    return Err(QueueError::Index);
                },
            }
            match txn.init_chunk_count(0, 0) {
                Ok(_) => (),
                Err(_) => {
                    return Err(QueueError::Index);
                },
            }
            match txn.init_cursor(key_offset(), 0) {
                Ok(_) => (),
                Err(_) => {
                    return Err(QueueError::Index);
                },
            }
            match txn.init_cursor(key_bytes_read(), 0) {
                Ok(_) => (),
                Err(_) => {
                    return Err(QueueError::Index);
                },
            }
        }
        let tail = match txn.last_chunk() {
            Ok(Some(kv)) => kv.0,
            Ok(None) => {
                return Err(QueueError::Invariant);
            },
            Err(_) => {
                return Err(QueueError::Index);
            },
        };
        let cs = match chunk_size {
            Some(c) => c,
            None => DEFAULT_CHUNK_SIZE,
        };
        Ok(Producer { chunk_size: cs, writer_file: tail })
    }

    /// Reads the tail chunk and fast-forwards the writer to it when the
    /// index moved ahead (the recovery path after a restart): afterwards
    /// `writer_file` is never behind the tail. When `reopened` is returned
    /// the caller must reopen the writer's file on the tail chunk before
    /// appending.
    pub fn sync_writer(&mut self, txn: &TopicTxn) -> (r: Result<TailSnapshot, QueueError>)
        ensures
            r matches Ok(s) ==> {
                &&& is_tail(producer_entries(*txn), s.tail)
                &&& producer_entries(*txn)[s.tail] == s.count
                &&& s.reopened == (s.tail > old(self).writer_file)
                &&& final(self).writer_file == (if s.tail > old(self).writer_file {
                    s.tail
                } else {
                    old(self).writer_file
                })
                &&& final(self).chunk_size == old(self).chunk_size
            },
            r is Err ==> *final(self) == *old(self),
            r == Result::<TailSnapshot, QueueError>::Err(QueueError::Invariant) ==> producer_entries(
                *txn,
            ).dom() == Set::<u64>::empty(),
    {
        let (tail, count) = match txn.last_chunk() {
            Ok(Some(kv)) => kv,
            Ok(None) => {
                return Err(QueueError::Invariant);
            },
            Err(_) => {
                return Err(QueueError::Index);
            },
        };
        if tail > self.writer_file {
            self.writer_file = tail;
            Ok(TailSnapshot { tail, count, reopened: true })
        } else {
            Ok(TailSnapshot { tail, count, reopened: false })
        }
    }

    /// Decides rotation and records a batch of `batch_len` records in the
    /// producer table, all before any byte is written.
    ///
    /// When the tail file has grown past `chunk_size` bytes the batch opens
    /// a fresh chunk (`tail + 1`), so a batch never spans two chunks; the
    /// old tail's count is left frozen. The size compared is the file size
    /// before this batch, so a single oversized batch may exceed
    /// `chunk_size`. The caller must append the whole batch to chunk
    /// `target` (rotating its file handle first when `rotated`) and then
    /// commit the transaction.
    pub fn place_batch(&mut self, txn: &mut TopicTxn, file_size: u64, batch_len: u64) -> (r:
        Result<Placement, QueueError>)
        ensures
            r matches Ok(p) ==> {
                &&& p.base + batch_len <= u64::MAX
                &&& producer_entries(*final(txn)) == producer_entries(*old(txn)).insert(
                    p.target,
                    (p.base + batch_len) as u64,
                )
                &&& cursor_entries(*final(txn)) == cursor_entries(*old(txn))
                &&& p.rotated == (file_size > old(self).chunk_size)
                &&& !p.rotated ==> is_tail(producer_entries(*old(txn)), p.target) && p.base
                    == producer_entries(*old(txn))[p.target]
                &&& p.rotated ==> {
                    &&& p.target >= 1
                    &&& is_tail(producer_entries(*old(txn)), (p.target - 1) as u64)
                    &&& p.base == 0
                    &&& !producer_entries(*old(txn)).dom().contains(p.target)
                    &&& producer_entries(*final(txn))[(p.target - 1) as u64] == producer_entries(
                        *old(txn),
                    )[(p.target - 1) as u64]
                }
                &&& final(self).writer_file == p.target
                &&& final(self).chunk_size == old(self).chunk_size
            },
            r is Err ==> *final(self) == *old(self),
            r == Result::<Placement, QueueError>::Err(QueueError::Invariant) ==> {
                &&& producer_entries(*final(txn)) == producer_entries(*old(txn))
                &&& cursor_entries(*final(txn)) == cursor_entries(*old(txn))
                &&& producer_entries(*old(txn)).dom() == Set::<u64>::empty() || (exists|t: u64|
                    #[trigger] is_tail(producer_entries(*old(txn)), t) && ((file_size > old(
                        self,
                    ).chunk_size && t == u64::MAX) || (file_size <= old(self).chunk_size
                        && producer_entries(*old(txn))[t] + batch_len > u64::MAX)))
            },
    {
        let (tail, count) = match txn.last_chunk() {
            Ok(Some(kv)) => kv,
            Ok(None) => {
                return Err(QueueError::Invariant);
            },
            Err(_) => {
                return Err(QueueError::Index);
            },
        };
        let (target, base, rotated) = if file_size > self.chunk_size {
            let t = match tail.checked_add(1) {
                Some(t) => t,
                None => {
                    return Err(QueueError::Invariant);
                },
            };
            match txn.put_chunk_count(t, 0) {
                Ok(_) => (),
                Err(_) => {
                    return Err(QueueError::Index);
                },
            }
            (t, 0u64, true)
        } else {
            (tail, count, false)
        };
        let new_count = match base.checked_add(batch_len) {
            Some(c) => c,
            None => {
                return Err(QueueError::Invariant);
            },
        };
        match txn.put_chunk_count(target, new_count) {
            Ok(_) => (),
            Err(_) => {
                return Err(QueueError::Index);
            },
        }
        proof {
            assert(producer_entries(*txn) =~= producer_entries(*old(txn)).insert(
                target,
                new_count,
            ));
        }
        self.writer_file = target;
        Ok(Placement { target, base, rotated })
    }

    /// The lag of the topic: see [`crate::consumer::lag`].
    pub fn lag(&self, txn: &TopicTxn) -> (r: Result<u64, QueueError>)
        ensures
            r matches Ok(v) ==> crate::consumer::spec_lag_ok(*txn, v),
            r == Result::<u64, QueueError>::Err(QueueError::Invariant)
                ==> crate::consumer::spec_lag_invariant(*txn),
    {
        crate::consumer::lag(txn)
    }
}

} // verus!
