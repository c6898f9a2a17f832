//! Consumer-side index logic: cursor loading, head-chunk rotation,
//! consumer-driven retention, offset accounting, and the lag metric.
//!
//! A dequeue runs in one transaction. The caller first applies retention
//! with [`Consumer::check_chunks_to_keep`], then reads frames from the head
//! chunk file, recording each with [`Consumer::note_frame`] and counting
//! with [`PopTally`]; when a read fails it asks
//! [`Consumer::rotate_to_next_chunk`] to advance to the next chunk. It
//! finishes with [`Consumer::inc_offset`] and commits.

use crate::store::cursor_entries;
use crate::store::is_tail;
use crate::store::producer_entries;
use crate::store::TopicTxn;
use crate::store::key_bytes_read;
use crate::store::key_file;
use crate::store::key_offset;
use crate::QueueError;
use vstd::prelude::*;

verus! {

/// By default the last 8 chunks are retained; older ones are reclaimed.
pub const DEFAULT_CHUNKS_TO_KEEP: u64 = 8;

/// The consumer's own state: the retention parameter and the reader's
/// position, mirrored from the cursor table it was loaded from.
pub struct Consumer {
    /// Chunks older than the last `chunks_to_keep` are reclaimed on the
    /// consumer's next activity, unread records included.
    pub chunks_to_keep: u64,
    /// The head chunk the reader stands on.
    pub file_num: u64,
    /// The byte offset at which the next frame begins in the head chunk.
    pub bytes_read: u64,
}

/// The cursor table after the head advanced to `new_head`: nothing consumed
/// from the new head chunk yet.
pub open spec fn rotated_cursor(ce: Map<Seq<char>, u64>, new_head: u64) -> Map<Seq<char>, u64> {
    ce.insert("FILE"@, new_head).insert("OFFSET"@, 0).insert("BYTES_READ"@, 0)
}

/// How many head chunks retention removes: the excess of the live range
/// `tail + 1 - head` over `keep`, but never past the tail chunk itself.
pub open spec fn spec_rotations(head: u64, tail: u64, keep: u64) -> int {
    let cap = if tail > head {
        tail - head
    } else {
        0
    };
    let excess = tail + 1 - head - keep;
    if excess <= 0 {
        0
    } else if excess > cap {
        cap
    } else {
        excess
    }
}

/// How many chunks retention must rotate away right now.
pub fn rotations_needed(head: u64, tail: u64, keep: u64) -> (n: u64)
    ensures
        n == spec_rotations(head, tail, keep),
{
    let cap: u64 = if tail > head {
        tail - head
    } else {
        0
    };
    let live: u128 = tail as u128 + 1;
    let kept: u128 = head as u128 + keep as u128;
    let excess: u128 = if live > kept {
        live - kept
    } else {
        0
    };
    if excess > cap as u128 {
        cap
    } else {
        excess as u64
    }
}

/// The chunk numbers `lo <= k < lo + n`.
pub open spec fn chunk_range(lo: u64, n: int) -> Set<u64> {
    Set::new(|k: u64| lo <= k < lo + n)
}

/// The sum of the recorded counts of chunks `lo..=hi`.
pub open spec fn sum_counts(m: Map<u64, u64>, lo: int, hi: int) -> int
    decreases hi + 1 - lo,
{
    if lo > hi {
        0
    } else {
        sum_counts(m, lo, hi - 1) + m[hi as u64]
    }
}

/// Counts the records taken by one dequeue. `OFFSET` means records consumed
/// from the current head chunk, so when a rotation moves the head mid-loop
/// the tally restarts at 1 (the record just read from the new chunk) rather
/// than incrementing.
pub struct PopTally {
    /// Records consumed from the current head chunk by this dequeue.
    pub delta: u64,
}

impl PopTally {
    /// A dequeue starts with nothing taken.
    pub fn new() -> (r: PopTally)
        ensures
            r.delta == 0,
    {
        PopTally { delta: 0 }
    }

    /// One more record was read from the current head chunk.
    pub fn record_item(&mut self)
        requires
            old(self).delta < u64::MAX,
        ensures
            final(self).delta == old(self).delta + 1,
    {
        self.delta = self.delta + 1;
    }

    /// The head rotated and one record was read from the new head chunk:
    /// the tally restarts at 1, matching the `OFFSET` reset to 0.
    pub fn record_rotation_item(&mut self)
        ensures
            final(self).delta == 1,
    {
        self.delta = 1;
    }
}

impl Consumer {
    /// Loads the consumer cursor from the index: the head chunk number and
    /// the byte offset to resume at. The reader must open that chunk's file
    /// and seek to `bytes_read`. A missing cursor key is an `Invariant`
    /// error: the topic was never initialised by a producer.
    pub fn new(txn: &TopicTxn, chunks_to_keep: Option<u64>) -> (r: Result<Consumer, QueueError>)
        ensures
            r matches Ok(c) ==> {
                &&& cursor_entries(*txn).dom().contains("FILE"@)
                &&& cursor_entries(*txn).dom().contains("BYTES_READ"@)
                &&& c.file_num == cursor_entries(*txn)["FILE"@]
                &&& c.bytes_read == cursor_entries(*txn)["BYTES_READ"@]
                &&& c.chunks_to_keep == (if chunks_to_keep is Some {
                    chunks_to_keep->0
                } else {
                    DEFAULT_CHUNKS_TO_KEEP
                })
            },
            r == Result::<Consumer, QueueError>::Err(QueueError::Invariant)
                ==> !cursor_entries(*txn).dom().contains("FILE"@) || !cursor_entries(
                *txn,
            ).dom().contains("BYTES_READ"@),
    {
        let file_num = match txn.get_cursor(key_file()) {
            Ok(Some(v)) => v,
            Ok(None) => {
                return Err(QueueError::Invariant);
            },
            Err(_) => {
                return Err(QueueError::Index);
            },
        };
        let bytes_read = match txn.get_cursor(key_bytes_read()) {
            Ok(Some(v)) => v,
            Ok(None) => {
                return Err(QueueError::Invariant);
            },
            Err(_) => {
                return Err(QueueError::Index);
            },
        };
        let keep = match chunks_to_keep {
            Some(k) => k,
            None => DEFAULT_CHUNKS_TO_KEEP,
        };
        Ok(Consumer { chunks_to_keep: keep, file_num, bytes_read })
    }

    /// Advances the head to the next chunk when the tail is ahead: removes
    /// the old head's producer entry and resets the cursor to the start of
    /// the new head. Returns `false`, changing nothing, when the head
    /// already stands on the tail. On `true` the caller must delete the old
    /// head's chunk file and reopen its reader at the start of the new one.
    pub fn rotate_to_next_chunk(&mut self, txn: &mut TopicTxn) -> (r: Result<bool, QueueError>)
        ensures
            r matches Ok(b) ==> cursor_entries(*old(txn)).dom().contains("FILE"@),
            r == Result::<bool, QueueError>::Ok(true) ==> {
                let head = cursor_entries(*old(txn))["FILE"@];
                &&& head < u64::MAX
                &&& (exists|t: u64|
                    #[trigger] is_tail(producer_entries(*old(txn)), t) && t > head)
                &&& producer_entries(*final(txn)) == producer_entries(*old(txn)).remove(head)
                &&& cursor_entries(*final(txn)) == rotated_cursor(
                    cursor_entries(*old(txn)),
                    (head + 1) as u64,
                )
                &&& final(self).file_num == head + 1
                &&& final(self).bytes_read == 0
                &&& final(self).chunks_to_keep == old(self).chunks_to_keep
            },
            r == Result::<bool, QueueError>::Ok(false) ==> {
                &&& producer_entries(*final(txn)) == producer_entries(*old(txn))
                &&& cursor_entries(*final(txn)) == cursor_entries(*old(txn))
                &&& *final(self) == *old(self)
                &&& forall|t: u64|
                    #[trigger] is_tail(producer_entries(*old(txn)), t) ==> t <= cursor_entries(
                        *old(txn),
                    )["FILE"@]
            },
            r is Err ==> *final(self) == *old(self),
            r == Result::<bool, QueueError>::Err(QueueError::Invariant) ==> {
                &&& !cursor_entries(*old(txn)).dom().contains("FILE"@) || producer_entries(
                    *old(txn),
                ).dom() == Set::<u64>::empty()
                &&& producer_entries(*final(txn)) == producer_entries(*old(txn))
                &&& cursor_entries(*final(txn)) == cursor_entries(*old(txn))
            },
    {
        let head = match txn.get_cursor(key_file()) {
            Ok(Some(v)) => v,
            Ok(None) => {
                return Err(QueueError::Invariant);
            },
            Err(_) => {
                return Err(QueueError::Index);
            },
        };
        let (tail, _count) = match txn.last_chunk() {
            Ok(Some(kv)) => kv,
            Ok(None) => {
                return Err(QueueError::Invariant);
            },
            Err(_) => {
                return Err(QueueError::Index);
            },
        };
        if tail > head {
            match txn.remove_chunk(head) {
                Ok(_) => (),
                Err(_) => {
                    return Err(QueueError::Index);
                },
            }
            match txn.put_cursor(key_file(), head + 1) {
                Ok(_) => (),
                Err(_) => {
                    return Err(QueueError::Index);
                },
            }
            match txn.put_cursor(key_offset(), 0) {
                Ok(_) => (),
                Err(_) => {
                    return Err(QueueError::Index);
                },
            }
            match txn.put_cursor(key_bytes_read(), 0) {
                Ok(_) => (),
                Err(_) => {
                    return Err(QueueError::Index);
                },
            }
            self.file_num = head + 1;
            self.bytes_read = 0;
            Ok(true)
        } else {
            Ok(false)
        }
    }

    /// Applies retention before a dequeue: while more than `chunks_to_keep`
    /// chunks are live, rotates the head forward, silently discarding the
    /// unread records of the removed chunks. Returns how many chunks were
    /// removed; the caller must delete those chunk files and, when the
    /// count is positive, reopen its reader at the start of the new head.
    pub fn check_chunks_to_keep(&mut self, txn: &mut TopicTxn) -> (r: Result<u64, QueueError>)
        ensures
            r matches Ok(n) ==> {
                let head0 = cursor_entries(*old(txn))["FILE"@];
                &&& cursor_entries(*old(txn)).dom().contains("FILE"@)
                &&& exists|t: u64|
                    {
                        &&& #[trigger] is_tail(producer_entries(*old(txn)), t)
                        &&& n == spec_rotations(head0, t, old(self).chunks_to_keep)
                        &&& producer_entries(*final(txn)) == producer_entries(
                            *old(txn),
                        ).remove_keys(chunk_range(head0, n as int))
                        &&& cursor_entries(*final(txn)) == (if n == 0 {
                            cursor_entries(*old(txn))
                        } else {
                            rotated_cursor(cursor_entries(*old(txn)), (head0 + n) as u64)
                        })
                        &&& final(self).file_num == (if n == 0 {
                            old(self).file_num
                        } else {
                            (head0 + n) as u64
                        })
                        &&& final(self).bytes_read == (if n == 0 {
                            old(self).bytes_read
                        } else {
                            0
                        })
                    }
                &&& final(self).chunks_to_keep == old(self).chunks_to_keep
            },
            r is Err ==> *final(self) == *old(self),
            r == Result::<u64, QueueError>::Err(QueueError::Invariant)
                ==> !cursor_entries(*old(txn)).dom().contains("FILE"@) || producer_entries(
                *old(txn),
            ).dom() == Set::<u64>::empty(),
    {
        let head = match txn.get_cursor(key_file()) {
            Ok(Some(v)) => v,
            Ok(None) => {
                return Err(QueueError::Invariant);
            },
            Err(_) => {
                return Err(QueueError::Index);
            },
        };
        let (tail, _count) = match txn.last_chunk() {
            Ok(Some(kv)) => kv,
            Ok(None) => {
                return Err(QueueError::Invariant);
            },
            Err(_) => {
                return Err(QueueError::Index);
            },
        };
        let saved_file_num = self.file_num;
        let saved_bytes_read = self.bytes_read;
        let n: u64 = rotations_needed(head, tail, self.chunks_to_keep);
        let ghost pe0 = producer_entries(*txn);
        let ghost ce0 = cursor_entries(*txn);
        let ghost self0 = *self;
        let mut i: u64 = 0;
        while i < n
            invariant
                0 <= i <= n,
                n == spec_rotations(head, tail, self0.chunks_to_keep),
                is_tail(pe0, tail),
                ce0.dom().contains("FILE"@),
                head == ce0["FILE"@],
                head + n <= tail || n == 0,
                producer_entries(*txn) == pe0.remove_keys(chunk_range(head, i as int)),
                cursor_entries(*txn) == (if i == 0 {
                    ce0
                } else {
                    rotated_cursor(ce0, (head + i) as u64)
                }),
                self.file_num == (if i == 0 {
                    self0.file_num
                } else {
                    (head + i) as u64
                }),
                self.bytes_read == (if i == 0 {
                    self0.bytes_read
                } else {
                    0
                }),
                self.chunks_to_keep == self0.chunks_to_keep,
                self0 == *old(self),
                saved_file_num == self0.file_num,
                saved_bytes_read == self0.bytes_read,
            decreases n - i,
        {
            proof {
                crate::store::lemma_keys_distinct();
                assert(is_tail(producer_entries(*txn), tail)) by {
                    assert(producer_entries(*txn).dom().contains(tail));
                    assert(forall|k: u64|
                        producer_entries(*txn).dom().contains(k) ==> pe0.dom().contains(k) && k
                            <= tail);
                }
                assert(cursor_entries(*txn)["FILE"@] == head + i);
                assert(cursor_entries(*txn).dom().contains("FILE"@));
            }
            let advanced = match self.rotate_to_next_chunk(txn) {
                Ok(b) => b,
                Err(e) => {
                    // leave the consumer state as it was: the caller
                    // abandons the transaction, so the index keeps the old
                    // cursor and the reader must stay with it
                    self.file_num = saved_file_num;
                    self.bytes_read = saved_bytes_read;
                    return Err(e);
                },
            };
            proof {
                if !advanced {
                    assert(is_tail(producer_entries(*txn), tail));
                    assert(tail <= head + i);
                    assert(false);
                }
                assert(producer_entries(*txn) =~= pe0.remove_keys(
                    chunk_range(head, i + 1 as int),
                ));
                assert(cursor_entries(*txn) =~= rotated_cursor(ce0, (head + i + 1) as u64));
            }
            i = i + 1;
        }
        Ok(n)
    }

    /// Accounts one frame of `payload_len` payload bytes as read: the next
    /// frame begins 12 header bytes plus the payload further on.
    pub fn note_frame(&mut self, payload_len: u32) -> (r: Result<(), QueueError>)
        ensures
            r is Ok ==> final(self).bytes_read == old(self).bytes_read + 12 + payload_len
                && final(self).file_num == old(self).file_num && final(self).chunks_to_keep == old(
                self,
            ).chunks_to_keep,
            r is Err ==> *final(self) == *old(self) && old(self).bytes_read + 12 + payload_len
                > u64::MAX,
    {
        let step = payload_len as u64 + 12;
        match self.bytes_read.checked_add(step) {
            Some(b) => {
                self.bytes_read = b;
                Ok(())
            },
            None => Err(QueueError::Invariant),
        }
    }

    /// Commits a dequeue's accounting to the cursor table: `OFFSET` grows
    /// by the records taken from the current head chunk and `BYTES_READ`
    /// becomes the reader's byte position.
    pub fn inc_offset(&self, txn: &mut TopicTxn, delta: u64) -> (r: Result<(), QueueError>)
        ensures
            r is Ok ==> {
                let ce0 = cursor_entries(*old(txn));
                &&& ce0.dom().contains("OFFSET"@)
                &&& ce0["OFFSET"@] + delta <= u64::MAX
                &&& cursor_entries(*final(txn)) == ce0.insert(
                    "OFFSET"@,
                    (ce0["OFFSET"@] + delta) as u64,
                ).insert("BYTES_READ"@, self.bytes_read)
                &&& producer_entries(*final(txn)) == producer_entries(*old(txn))
            },
            r == Result::<(), QueueError>::Err(QueueError::Invariant) ==> {
                let ce0 = cursor_entries(*old(txn));
                &&& !ce0.dom().contains("OFFSET"@) || ce0["OFFSET"@] + delta > u64::MAX
                &&& cursor_entries(*final(txn)) == ce0
                &&& producer_entries(*final(txn)) == producer_entries(*old(txn))
            },
    {
        let offset = match txn.get_cursor(key_offset()) {
            Ok(Some(v)) => v,
            Ok(None) => {
                return Err(QueueError::Invariant);
            },
            Err(_) => {
                return Err(QueueError::Index);
            },
        };
        let new_offset = match offset.checked_add(delta) {
            Some(v) => v,
            None => {
                return Err(QueueError::Invariant);
            },
        };
        match txn.put_cursor(key_offset(), new_offset) {
            Ok(_) => (),
            Err(_) => {
                return Err(QueueError::Index);
            },
        }
        match txn.put_cursor(key_bytes_read(), self.bytes_read) {
            Ok(_) => (),
            Err(_) => {
                return Err(QueueError::Index);
            },
        }
        Ok(())
    }

    /// The lag of the topic: see [`lag`].
    pub fn lag(&self, txn: &TopicTxn) -> (r: Result<u64, QueueError>)
        ensures
            r matches Ok(v) ==> spec_lag_ok(*txn, v),
            r == Result::<u64, QueueError>::Err(QueueError::Invariant) ==> spec_lag_invariant(
                *txn,
            ),
    {
        lag(txn)
    }
}

/// Adding further chunks to a range never lowers its count sum: every
/// recorded count is non-negative.
proof fn lemma_sum_monotone(m: Map<u64, u64>, lo: int, mid: int, hi: int)
    requires
        lo - 1 <= mid <= hi,
    ensures
        sum_counts(m, lo, hi) >= sum_counts(m, lo, mid),
    decreases hi - mid,
{
    if mid < hi {
        lemma_sum_monotone(m, lo, mid, hi - 1);
    }
}

/// Why a lag reading legitimately reports an `Invariant` error: the `FILE`
/// key is absent, the producer table is empty, a chunk is missing from the
/// live range, the count sum does not fit a 64-bit integer, or `OFFSET`
/// lies beyond the total.
pub open spec fn spec_lag_invariant(txn: TopicTxn) -> bool {
    let pe = producer_entries(txn);
    let ce = cursor_entries(txn);
    let head = ce["FILE"@];
    let offset = if ce.dom().contains("OFFSET"@) {
        ce["OFFSET"@]
    } else {
        0
    };
    ||| !ce.dom().contains("FILE"@)
    ||| pe.dom() == Set::<u64>::empty()
    ||| exists|t: u64|
        #[trigger] is_tail(pe, t) && ((exists|k: u64| head <= k <= t && !pe.dom().contains(k))
            || sum_counts(pe, head as int, t as int) > u64::MAX || sum_counts(
            pe,
            head as int,
            t as int,
        ) < offset)
}

/// What a successful lag reading means: `v` is the sum of the recorded
/// counts of the live chunks (head through tail) minus the records already
/// consumed from the head chunk.
pub open spec fn spec_lag_ok(txn: TopicTxn, v: u64) -> bool {
    let pe = producer_entries(txn);
    let ce = cursor_entries(txn);
    let head = ce["FILE"@];
    let offset = if ce.dom().contains("OFFSET"@) {
        ce["OFFSET"@]
    } else {
        0
    };
    &&& ce.dom().contains("FILE"@)
    &&& exists|t: u64|
        {
            &&& #[trigger] is_tail(pe, t)
            &&& v == sum_counts(pe, head as int, t as int) - offset
            &&& forall|k: u64| head <= k <= t ==> pe.dom().contains(k)
        }
}

/// Computes the topic's lag: the total records recorded for the live
/// chunks, head through tail, minus the consumed `OFFSET`. A chunk missing
/// from that range is an `Invariant` error, as is a sum that overflows or
/// an `OFFSET` beyond the total.
pub fn lag(txn: &TopicTxn) -> (r: Result<u64, QueueError>)
    ensures
        r matches Ok(v) ==> spec_lag_ok(*txn, v),
        r == Result::<u64, QueueError>::Err(QueueError::Invariant) ==> spec_lag_invariant(*txn),
{
    let head = match txn.get_cursor(key_file()) {
        Ok(Some(v)) => v,
        Ok(None) => {
            return Err(QueueError::Invariant);
        },
        Err(_) => {
            return Err(QueueError::Index);
        },
    };
    let (tail, _count) = match txn.last_chunk() {
        Ok(Some(kv)) => kv,
        Ok(None) => {
            return Err(QueueError::Invariant);
        },
        Err(_) => {
            return Err(QueueError::Index);
        },
    };
    let offset = match txn.get_cursor(key_offset()) {
        Ok(Some(v)) => v,
        Ok(None) => 0,
        Err(_) => {
            return Err(QueueError::Index);
        },
    };
    let mut total: u64 = 0;
    if head <= tail {
        let mut k: u64 = head;
        loop
            invariant_except_break
                head <= k <= tail,
                total == sum_counts(producer_entries(*txn), head as int, k as int - 1),
                forall|j: u64| head <= j < k ==> producer_entries(*txn).dom().contains(j),
            invariant
                is_tail(producer_entries(*txn), tail),
                head <= tail,
                cursor_entries(*txn).dom().contains("FILE"@),
                head == cursor_entries(*txn)["FILE"@],
            ensures
                total == sum_counts(producer_entries(*txn), head as int, tail as int),
                forall|j: u64| head <= j <= tail ==> producer_entries(*txn).dom().contains(j),
            decreases tail - k,
        {
            let c = match txn.get_chunk_count(k) {
                Ok(Some(v)) => v,
                Ok(None) => {
                    proof {
                        assert(is_tail(producer_entries(*txn), tail));
                        assert(head <= k <= tail && !producer_entries(*txn).dom().contains(k));
                    }
                    return Err(QueueError::Invariant);
                },
                Err(_) => {
                    return Err(QueueError::Index);
                },
            };
            total = match total.checked_add(c) {
                Some(v) => v,
                None => {
                    proof {
                        assert(sum_counts(producer_entries(*txn), head as int, k as int) == total
                            + c);
                        lemma_sum_monotone(producer_entries(*txn), head as int, k as int, tail as int);
                        assert(sum_counts(producer_entries(*txn), head as int, tail as int)
                            > u64::MAX);
                        assert(is_tail(producer_entries(*txn), tail));
                    }
                    return Err(QueueError::Invariant);
                },
            };
            proof {
                assert(total == sum_counts(producer_entries(*txn), head as int, k as int));
            }
            if k == tail {
                break ;
            }
            k = k + 1;
        }
    }
    match total.checked_sub(offset) {
        Some(v) => Ok(v),
        None => {
            proof {
                assert(is_tail(producer_entries(*txn), tail));
                assert(sum_counts(producer_entries(*txn), head as int, tail as int) < offset);
            }
            Err(QueueError::Invariant)
        },
    }
}

} // verus!
