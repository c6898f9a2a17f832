//! The queue-wide properties, stated and proved over the same spec
//! functions the executable contracts use.

use crate::consumer::rotated_cursor;
use crate::consumer::spec_lag_ok;
use crate::consumer::spec_rotations;
use crate::consumer::sum_counts;
use crate::frame::entry_wf;
use crate::frame::lemma_frame_at_head;
use crate::frame::lemma_read_all_shift;
use crate::frame::lemma_stream_concat;
use crate::frame::spec_frame;
use crate::frame::spec_offset_of;
use crate::frame::spec_read_all;
use crate::frame::spec_stream;
use crate::frame::Entry;
use crate::store::cursor_entries;
use crate::store::is_tail;
use crate::store::lemma_keys_distinct;
use crate::store::producer_entries;
use crate::store::TopicTxn;
use vstd::prelude::*;

verus! {

/// First-in, first-out: decoding the framed stream of a run of records
/// yields exactly those records, in enqueue order. Since the consumer reads
/// frames sequentially from the position where the previous read ended,
/// draining a chunk returns its payloads in the order they were appended.
pub proof fn lemma_fifo(entries: Seq<Entry>)
    requires
        forall|i: int| 0 <= i < entries.len() ==> entry_wf(#[trigger] entries[i]),
    ensures
        spec_read_all(spec_stream(entries), 0) == entries,
    decreases entries.len(),
{
    if entries.len() == 0 {
        assert(spec_read_all(spec_stream(entries), 0) =~= entries);
    } else {
        let f0 = spec_frame(entries[0].0, entries[0].1);
        let rest = entries.drop_first();
        lemma_frame_at_head(entries);
        assert(spec_stream(entries) == f0 + spec_stream(rest));
        lemma_read_all_shift(f0, spec_stream(rest), 0);
        assert(spec_read_all(spec_stream(entries), f0.len() as int) == spec_read_all(
            spec_stream(rest),
            0,
        ));
        assert(forall|i: int| 0 <= i < rest.len() ==> entry_wf(#[trigger] rest[i]));
        lemma_fifo(rest);
        assert((entries[0].0, entries[0].1) == entries[0]);
        assert(spec_read_all(spec_stream(entries), 0) =~= entries);
    }
}

/// Crash-safe resume: the persisted byte offset of the first unconsumed
/// record is all a consumer needs. Decoding the stream from the offset
/// where record `k` begins yields exactly the records from `k` on, with no
/// gap and no duplicate.
pub proof fn lemma_resume(entries: Seq<Entry>, k: int)
    requires
        forall|i: int| 0 <= i < entries.len() ==> entry_wf(#[trigger] entries[i]),
        0 <= k <= entries.len(),
    ensures
        spec_read_all(spec_stream(entries), spec_offset_of(entries, k)) == entries.skip(k),
{
    let front = entries.take(k);
    let back = entries.skip(k);
    assert(entries =~= front + back);
    lemma_stream_concat(front, back);
    assert(spec_stream(entries) == spec_stream(front) + spec_stream(back));
    lemma_read_all_shift(spec_stream(front), spec_stream(back), 0);
    assert(forall|i: int| 0 <= i < back.len() ==> entry_wf(#[trigger] back[i]));
    lemma_fifo(back);
}

/// The record indices `off <= i < off + delta` of the head chunk, as one
/// dequeue consumes them.
pub open spec fn consumed_range(off: u64, delta: u64) -> Set<int> {
    Set::new(|i: int| off <= i < off + delta)
}

/// Exactly-once within the retention window: a dequeue that takes `delta`
/// records leaves `OFFSET` at the end of the range it consumed, so the
/// ranges any two successive dequeues consume from the same head chunk are
/// disjoint. (A reclaimed chunk is never revisited: rotation only ever
/// moves the head forward.)
pub proof fn lemma_exactly_once(t0: TopicTxn, t1: TopicTxn, delta: u64, bytes: u64)
    requires
        cursor_entries(t0).dom().contains("OFFSET"@),
        cursor_entries(t0)["OFFSET"@] + delta <= u64::MAX,
        cursor_entries(t1) == cursor_entries(t0).insert(
            "OFFSET"@,
            (cursor_entries(t0)["OFFSET"@] + delta) as u64,
        ).insert("BYTES_READ"@, bytes),
    ensures
        cursor_entries(t1)["OFFSET"@] == cursor_entries(t0)["OFFSET"@] + delta,
        forall|d2: u64, i: int|
            consumed_range(cursor_entries(t0)["OFFSET"@], delta).contains(i)
                ==> !consumed_range(cursor_entries(t1)["OFFSET"@], d2).contains(i),
{
    lemma_keys_distinct();
}

/// Exactly-once over a whole run of dequeues from one head chunk: each
/// dequeue `i` starts at the `OFFSET` the previous one committed
/// (`offs[i + 1] == offs[i] + takes[i]`, which is what
/// `Consumer::inc_offset` ensures), so the ranges any two dequeues of the
/// run consume are disjoint — no record index is returned twice. Across
/// chunks the same holds because rotation only ever moves the head
/// forward, so a reclaimed chunk is never read again.
pub proof fn lemma_exactly_once_history(offs: Seq<u64>, takes: Seq<u64>)
    requires
        offs.len() == takes.len(),
        forall|i: int| 0 <= i < takes.len() ==> offs[i] + #[trigger] takes[i] <= u64::MAX,
        forall|i: int| 0 <= i + 1 < offs.len() ==> offs[i + 1] == offs[i] + #[trigger] takes[i],
    ensures
        forall|i: int, j: int, x: int|
            0 <= i < j < takes.len() && consumed_range(offs[i], takes[i]).contains(x)
                ==> !consumed_range(offs[j], takes[j]).contains(x),
{
    assert forall|i: int, j: int, x: int|
        0 <= i < j < takes.len() && consumed_range(offs[i], takes[i]).contains(
            x,
        ) implies !consumed_range(offs[j], takes[j]).contains(x) by {
        lemma_offsets_climb(offs, takes, i, j);
    }
}

/// Each committed `OFFSET` lies at or past the end of every earlier
/// dequeue's range.
proof fn lemma_offsets_climb(offs: Seq<u64>, takes: Seq<u64>, i: int, j: int)
    requires
        offs.len() == takes.len(),
        forall|k: int| 0 <= k < takes.len() ==> offs[k] + #[trigger] takes[k] <= u64::MAX,
        forall|k: int| 0 <= k + 1 < offs.len() ==> offs[k + 1] == offs[k] + #[trigger] takes[k],
        0 <= i < j < offs.len(),
    ensures
        offs[j] >= offs[i] + takes[i],
    decreases j - i,
{
    if j > i + 1 {
        lemma_offsets_climb(offs, takes, i, j - 1);
        assert(offs[j] == offs[j - 1] + takes[j - 1]);
    } else {
        assert(offs[j] == offs[i] + takes[i]);
    }
}

/// The sum of a chunk range is untouched by an entry outside the range.
proof fn lemma_sum_insert_outside(m: Map<u64, u64>, lo: int, hi: int, k: u64, v: u64)
    requires
        k > hi || k < lo,
        0 <= lo,
        hi <= u64::MAX,
    ensures
        sum_counts(m.insert(k, v), lo, hi) == sum_counts(m, lo, hi),
    decreases hi + 1 - lo,
{
    if lo <= hi {
        assert(k != hi as u64);
        lemma_sum_insert_outside(m, lo, hi - 1, k, v);
    }
}

/// The sum of a chunk range is untouched by removing an entry outside it.
proof fn lemma_sum_remove_outside(m: Map<u64, u64>, lo: int, hi: int, k: u64)
    requires
        k > hi || k < lo,
        0 <= lo,
        hi <= u64::MAX,
    ensures
        sum_counts(m.remove(k), lo, hi) == sum_counts(m, lo, hi),
    decreases hi + 1 - lo,
{
    if lo <= hi {
        assert(k != hi as u64);
        lemma_sum_remove_outside(m, lo, hi - 1, k);
    }
}

/// A chunk range's sum splits off its lowest chunk.
proof fn lemma_sum_split_low(m: Map<u64, u64>, lo: int, hi: int)
    requires
        0 <= lo <= hi,
        hi <= u64::MAX,
    ensures
        sum_counts(m, lo, hi) == m[lo as u64] + sum_counts(m, lo + 1, hi),
    decreases hi - lo,
{
    if lo < hi {
        lemma_sum_split_low(m, lo, hi - 1);
        assert(sum_counts(m, lo + 1, hi) == sum_counts(m, lo + 1, hi - 1) + m[hi as u64]);
    } else {
        assert(sum_counts(m, lo, hi) == sum_counts(m, lo, lo - 1) + m[lo as u64]);
        assert(sum_counts(m, lo + 1, hi) == 0);
    }
}

/// Lag monotonicity, producer side: a committed batch of `batch_len`
/// records raises the next lag reading by exactly `batch_len`, whether or
/// not the batch opened a fresh chunk, as long as no consumer activity
/// intervened. The two hypotheses on the tables are what
/// `Producer::place_batch` ensures of the transaction.
pub proof fn lemma_lag_after_push(
    t0: TopicTxn,
    t1: TopicTxn,
    tail: u64,
    target: u64,
    base: u64,
    batch_len: u64,
    v0: u64,
    v1: u64,
)
    requires
        is_tail(producer_entries(t0), tail),
        cursor_entries(t0).dom().contains("FILE"@),
        cursor_entries(t0)["FILE"@] <= tail,
        base + batch_len <= u64::MAX,
        producer_entries(t1) == producer_entries(t0).insert(target, (base + batch_len) as u64),
        cursor_entries(t1) == cursor_entries(t0),
        (target == tail && base == producer_entries(t0)[tail]) || (tail < u64::MAX && target == tail
            + 1 && base == 0),
        spec_lag_ok(t0, v0),
        spec_lag_ok(t1, v1),
    ensures
        v1 == v0 + batch_len,
{
    let pe0 = producer_entries(t0);
    let pe1 = producer_entries(t1);
    let head = cursor_entries(t0)["FILE"@];
    let t0w = choose|t: u64|
        {
            &&& #[trigger] is_tail(pe0, t)
            &&& v0 == sum_counts(pe0, head as int, t as int) - (if cursor_entries(t0).dom().contains(
                "OFFSET"@,
            ) {
                cursor_entries(t0)["OFFSET"@]
            } else {
                0
            })
            &&& forall|k: u64| head <= k <= t ==> pe0.dom().contains(k)
        };
    assert(t0w == tail);
    assert(is_tail(pe1, target));
    let t1w = choose|t: u64|
        {
            &&& #[trigger] is_tail(pe1, t)
            &&& v1 == sum_counts(pe1, head as int, t as int) - (if cursor_entries(t1).dom().contains(
                "OFFSET"@,
            ) {
                cursor_entries(t1)["OFFSET"@]
            } else {
                0
            })
            &&& forall|k: u64| head <= k <= t ==> pe1.dom().contains(k)
        };
    assert(t1w == target);
    if target == tail && base == pe0[tail] {
        lemma_sum_insert_outside(pe0, head as int, tail as int - 1, target, (base + batch_len) as u64);
        assert(sum_counts(pe1, head as int, tail as int) == sum_counts(pe1, head as int, tail as int - 1)
            + pe1[tail]);
        assert(sum_counts(pe0, head as int, tail as int) == sum_counts(pe0, head as int, tail as int - 1)
            + pe0[tail]);
    } else {
        lemma_sum_insert_outside(pe0, head as int, tail as int, target, (base + batch_len) as u64);
        assert(sum_counts(pe1, head as int, target as int) == sum_counts(pe1, head as int, tail as int)
            + pe1[target]);
    }
}

/// Lag monotonicity, consumer side: a committed dequeue of `delta` records
/// with no head rotation lowers the next lag reading by exactly `delta`.
/// The two hypotheses on the tables are what `Consumer::inc_offset`
/// ensures of the transaction.
pub proof fn lemma_lag_after_pop(t0: TopicTxn, t1: TopicTxn, delta: u64, bytes: u64, v0: u64, v1: u64)
    requires
        cursor_entries(t0).dom().contains("OFFSET"@),
        cursor_entries(t0)["OFFSET"@] + delta <= u64::MAX,
        producer_entries(t1) == producer_entries(t0),
        cursor_entries(t1) == cursor_entries(t0).insert(
            "OFFSET"@,
            (cursor_entries(t0)["OFFSET"@] + delta) as u64,
        ).insert("BYTES_READ"@, bytes),
        spec_lag_ok(t0, v0),
        spec_lag_ok(t1, v1),
    ensures
        v1 + delta == v0,
{
    lemma_keys_distinct();
    let pe = producer_entries(t0);
    let head = cursor_entries(t0)["FILE"@];
    let t0w = choose|t: u64|
        {
            &&& #[trigger] is_tail(pe, t)
            &&& v0 == sum_counts(pe, head as int, t as int) - cursor_entries(t0)["OFFSET"@]
            &&& forall|k: u64| head <= k <= t ==> pe.dom().contains(k)
        };
    let t1w = choose|t: u64|
        {
            &&& #[trigger] is_tail(pe, t)
            &&& v1 == sum_counts(pe, head as int, t as int) - cursor_entries(t1)["OFFSET"@]
            &&& forall|k: u64| head <= k <= t ==> pe.dom().contains(k)
        };
    assert(t0w == t1w);
}

/// Lag monotonicity, consumer side, across a head rotation: a committed
/// dequeue that read `delta1` records from the old head chunk, rotated,
/// and read `delta2` more from the new head lowers the next lag reading by
/// exactly `delta1 + delta2` — the records it returned — provided the old
/// head's recorded count was fully consumed (`count == OFFSET + delta1`;
/// after a crash between a file append and its commit the count may lag
/// the file, and the lag reading then drops by less). The hypotheses on
/// the tables are what `Consumer::rotate_to_next_chunk` (returning `true`)
/// and `Consumer::inc_offset` ensure of the transaction.
pub proof fn lemma_lag_after_pop_rotation(
    t0: TopicTxn,
    t1: TopicTxn,
    t2: TopicTxn,
    tail: u64,
    delta1: u64,
    delta2: u64,
    bytes: u64,
    v0: u64,
    v2: u64,
)
    requires
        ({
            let pe0 = producer_entries(t0);
            let ce0 = cursor_entries(t0);
            let head = ce0["FILE"@];
            &&& ce0.dom().contains("FILE"@)
            &&& ce0.dom().contains("OFFSET"@)
            &&& is_tail(pe0, tail)
            &&& tail > head
            &&& pe0.dom().contains(head)
            &&& pe0[head] == ce0["OFFSET"@] + delta1
            &&& producer_entries(t1) == pe0.remove(head)
            &&& cursor_entries(t1) == rotated_cursor(ce0, (head + 1) as u64)
            &&& cursor_entries(t1)["OFFSET"@] + delta2 <= u64::MAX
            &&& producer_entries(t2) == producer_entries(t1)
            &&& cursor_entries(t2) == cursor_entries(t1).insert(
                "OFFSET"@,
                (cursor_entries(t1)["OFFSET"@] + delta2) as u64,
            ).insert("BYTES_READ"@, bytes)
        }),
        spec_lag_ok(t0, v0),
        spec_lag_ok(t2, v2),
    ensures
        v0 == v2 + delta1 + delta2,
{
    lemma_keys_distinct();
    let pe0 = producer_entries(t0);
    let ce0 = cursor_entries(t0);
    let head = ce0["FILE"@];
    let pe2 = producer_entries(t2);
    let t0w = choose|t: u64|
        {
            &&& #[trigger] is_tail(pe0, t)
            &&& v0 == sum_counts(pe0, head as int, t as int) - (if ce0.dom().contains("OFFSET"@) {
                ce0["OFFSET"@]
            } else {
                0
            })
            &&& forall|k: u64| head <= k <= t ==> pe0.dom().contains(k)
        };
    assert(t0w == tail);
    assert(cursor_entries(t1)["OFFSET"@] == 0);
    assert(cursor_entries(t2)["FILE"@] == head + 1);
    assert(cursor_entries(t2)["OFFSET"@] == delta2);
    assert(is_tail(pe2, tail));
    let head2 = cursor_entries(t2)["FILE"@];
    let t2w = choose|t: u64|
        {
            &&& #[trigger] is_tail(pe2, t)
            &&& v2 == sum_counts(pe2, head2 as int, t as int) - (if cursor_entries(
                t2,
            ).dom().contains("OFFSET"@) {
                cursor_entries(t2)["OFFSET"@]
            } else {
                0
            })
            &&& forall|k: u64| head2 <= k <= t ==> pe2.dom().contains(k)
        };
    assert(t2w == tail);
    lemma_sum_split_low(pe0, head as int, tail as int);
    lemma_sum_remove_outside(pe0, head as int + 1, tail as int, head);
    assert(sum_counts(pe2, head as int + 1, tail as int) == sum_counts(
        pe0,
        head as int + 1,
        tail as int,
    ));
}

/// Chunk rotation correctness: when a batch crosses the size threshold the
/// whole batch lands in the fresh tail chunk, whose recorded count is
/// exactly the batch length, and the count of the chunk it left behind is
/// frozen. The hypotheses are what `Producer::place_batch` ensures when it
/// rotated.
pub proof fn lemma_rotation_correct(t0: TopicTxn, t1: TopicTxn, target: u64, batch_len: u64)
    requires
        target >= 1,
        is_tail(producer_entries(t0), (target - 1) as u64),
        !producer_entries(t0).dom().contains(target),
        producer_entries(t1) == producer_entries(t0).insert(target, batch_len),
    ensures
        producer_entries(t1)[target] == batch_len,
        producer_entries(t1)[(target - 1) as u64] == producer_entries(t0)[(target - 1) as u64],
        is_tail(producer_entries(t1), target),
{
}

/// Retention bound: after `Consumer::check_chunks_to_keep` rotates
/// `spec_rotations(head, tail, keep)` chunks away, at most `keep` chunks
/// are live (one, when `keep` is zero: the tail chunk itself is never
/// reclaimed), so at most `keep + 1` chunk files exist once the producer
/// opens the next tail.
pub proof fn lemma_retention_bound(head: u64, tail: u64, keep: u64)
    requires
        head <= tail,
    ensures
        tail + 1 - (head + spec_rotations(head, tail, keep)) <= (if keep == 0 {
            1int
        } else {
            keep as int
        }),
        tail + 1 - (head + spec_rotations(head, tail, keep)) <= keep + 1,
{
}

} // verus!
