//! Record framing: each record is stored as a fixed 12-byte prefix followed
//! by the payload. Bytes 0..4 hold the payload length as a little-endian
//! 32-bit integer, bytes 4..12 the timestamp (seconds since the Unix epoch)
//! as a little-endian 64-bit integer, and the payload follows.
//!
//! The byte order is fixed little-endian, so chunk files read the same on
//! every architecture.

use crate::Item;
use crate::QueueError;
use vstd::bytes::lemma_auto_spec_u32_to_from_le_bytes;
use vstd::bytes::lemma_auto_spec_u64_to_from_le_bytes;
use vstd::bytes::spec_u32_from_le_bytes;
use vstd::bytes::spec_u32_to_le_bytes;
use vstd::bytes::spec_u64_from_le_bytes;
use vstd::bytes::spec_u64_to_le_bytes;
use vstd::bytes::u32_from_le_bytes;
use vstd::bytes::u32_to_le_bytes;
use vstd::bytes::u64_from_le_bytes;
use vstd::bytes::u64_to_le_bytes;
use vstd::prelude::*;
use vstd::slice::slice_subrange;
use vstd::slice::slice_to_vec;

verus! {

/// Bytes of the fixed frame prefix: 4 length bytes and 8 timestamp bytes.
pub const HEADER_SIZE: usize = 12;

/// A record frame can hold at most this many payload bytes.
pub const MAX_PAYLOAD: usize = 0xffff_ffff;

/// On read, a timestamp is accepted only within this many seconds of the
/// clock: ten days.
pub const TS_WINDOW: u64 = 864000;

/// One enqueued record as ghost data: its timestamp and its payload bytes.
pub type Entry = (u64, Seq<u8>);

/// A payload small enough for its length to fit the 32-bit length field.
pub open spec fn entry_wf(e: Entry) -> bool {
    e.1.len() <= 0xffff_ffffint
}

/// The on-disk bytes of one framed record.
pub open spec fn spec_frame(ts: u64, payload: Seq<u8>) -> Seq<u8> {
    spec_u32_to_le_bytes(payload.len() as u32) + spec_u64_to_le_bytes(ts) + payload
}

/// The on-disk bytes of a run of framed records, in order.
pub open spec fn spec_stream(entries: Seq<Entry>) -> Seq<u8>
    decreases entries.len(),
{
    if entries.len() == 0 {
        Seq::empty()
    } else {
        spec_frame(entries[0].0, entries[0].1) + spec_stream(entries.drop_first())
    }
}

/// The byte offset at which the frame of record `i` begins in the stream of
/// `entries`: the length of the encoding of the records before it.
pub open spec fn spec_offset_of(entries: Seq<Entry>, i: int) -> int {
    spec_stream(entries.take(i)).len() as int
}

/// Decoding one frame at byte offset `pos` of `buf`: `None` when fewer than
/// 12 header bytes remain or the decoded length runs past the end, else the
/// timestamp, the payload, and the offset of the next frame.
pub open spec fn spec_frame_at(buf: Seq<u8>, pos: int) -> Option<(u64, Seq<u8>, int)> {
    if pos < 0 || pos + 12 > buf.len() {
        None
    } else {
        let len = spec_u32_from_le_bytes(buf.subrange(pos, pos + 4)) as int;
        let ts = spec_u64_from_le_bytes(buf.subrange(pos + 4, pos + 12));
        if pos + 12 + len > buf.len() {
            None
        } else {
            Some((ts, buf.subrange(pos + 12, pos + 12 + len), pos + 12 + len))
        }
    }
}

/// All records obtained by decoding frames from `pos` until one fails.
pub open spec fn spec_read_all(buf: Seq<u8>, pos: int) -> Seq<Entry>
    decreases buf.len() - pos,
{
    match spec_frame_at(buf, pos) {
        Option::None => Seq::empty(),
        Option::Some((ts, data, next)) => seq![(ts, data)] + spec_read_all(buf, next),
    }
}

/// Framing a run of records encodes each record in turn: the stream of a
/// concatenation is the concatenation of the streams.
pub proof fn lemma_stream_concat(x: Seq<Entry>, y: Seq<Entry>)
    ensures
        spec_stream(x + y) == spec_stream(x) + spec_stream(y),
    decreases x.len(),
{
    if x.len() == 0 {
        assert(x + y =~= y);
        assert(spec_stream(x) + spec_stream(y) =~= spec_stream(y));
    } else {
        lemma_stream_concat(x.drop_first(), y);
        assert((x + y).drop_first() =~= x.drop_first() + y);
        assert(spec_stream(x + y) =~= spec_stream(x) + spec_stream(y));
    }
}

/// Decoding is oblivious to bytes before the decode position: shifting a
/// frame past a prefix `a` leaves the decoded record unchanged.
pub proof fn lemma_frame_at_shift(a: Seq<u8>, b: Seq<u8>, p: int)
    requires
        p >= 0,
    ensures
        match spec_frame_at(b, p) {
            Option::None => spec_frame_at(a + b, a.len() + p) is None,
            Option::Some((ts, data, n)) => spec_frame_at(a + b, a.len() + p) == Option::Some(
                (ts, data, a.len() + n),
            ),
        },
{
    let ab = a + b;
    let q = a.len() + p;
    if p + 12 <= b.len() {
        assert(ab.subrange(q, q + 4) =~= b.subrange(p, p + 4));
        assert(ab.subrange(q + 4, q + 12) =~= b.subrange(p + 4, p + 12));
        let len = spec_u32_from_le_bytes(b.subrange(p, p + 4)) as int;
        if p + 12 + len <= b.len() {
            assert(ab.subrange(q + 12, q + 12 + len) =~= b.subrange(p + 12, p + 12 + len));
        }
    }
}

/// Decoding every frame is likewise oblivious to a prefix.
pub proof fn lemma_read_all_shift(a: Seq<u8>, b: Seq<u8>, p: int)
    requires
        p >= 0,
    ensures
        spec_read_all(a + b, a.len() + p) == spec_read_all(b, p),
    decreases b.len() - p,
{
    lemma_frame_at_shift(a, b, p);
    match spec_frame_at(b, p) {
        Option::None => {},
        Option::Some((ts, data, n)) => {
            lemma_read_all_shift(a, b, n);
        },
    }
}

/// The frame of record 0 of a non-empty run decodes back to that record,
/// and the next frame begins where its bytes end.
pub proof fn lemma_frame_at_head(entries: Seq<Entry>)
    requires
        entries.len() > 0,
        entry_wf(entries[0]),
    ensures
        spec_frame_at(spec_stream(entries), 0) == Option::Some(
            (entries[0].0, entries[0].1, spec_frame(entries[0].0, entries[0].1).len() as int),
        ),
{
    let f0 = spec_frame(entries[0].0, entries[0].1);
    let buf = spec_stream(entries);
    let len0 = entries[0].1.len() as int;
    lemma_auto_spec_u32_to_from_le_bytes();
    lemma_auto_spec_u64_to_from_le_bytes();
    assert(buf =~= f0 + spec_stream(entries.drop_first()));
    assert(buf.subrange(0, 4) =~= spec_u32_to_le_bytes(entries[0].1.len() as u32));
    assert(buf.subrange(4, 12) =~= spec_u64_to_le_bytes(entries[0].0));
    assert(spec_u32_from_le_bytes(buf.subrange(0, 4)) == len0);
    assert(buf.subrange(12, 12 + len0) =~= entries[0].1);
}

/// The timestamp sanity window: accepted iff within `TS_WINDOW` seconds
/// before `now`, and not in the future.
pub open spec fn spec_ts_in_window(ts: u64, now: u64) -> bool {
    now - TS_WINDOW <= ts <= now
}

/// A decoded frame prefix: the payload length and the timestamp.
pub struct FrameHeader {
    pub len: u32,
    pub ts: u64,
}

/// Decode the fixed 12-byte frame prefix: little-endian length, then
/// little-endian timestamp.
pub fn decode_header(head: &[u8]) -> (r: FrameHeader)
    requires
        head@.len() == 12,
    ensures
        r.len == spec_u32_from_le_bytes(head@.subrange(0, 4)),
        r.ts == spec_u64_from_le_bytes(head@.subrange(4, 12)),
{
    let len = u32_from_le_bytes(slice_subrange(head, 0, 4));
    let ts = u64_from_le_bytes(slice_subrange(head, 4, 12));
    FrameHeader { len, ts }
}

/// Whether `ts` passes the read-side timestamp sanity gate.
pub fn ts_in_window(ts: u64, now: u64) -> (r: bool)
    ensures
        r == spec_ts_in_window(ts, now),
{
    ts <= now && now - ts <= TS_WINDOW
}

/// Encode one record frame: little-endian length, little-endian timestamp,
/// then the payload bytes.
pub fn encode_frame(ts: u64, payload: &[u8]) -> (r: Vec<u8>)
    requires
        payload@.len() <= 0xffff_ffffint,
    ensures
        r@ == spec_frame(ts, payload@),
        r@.len() == 12 + payload@.len(),
{
    let len: u32 = payload.len() as u32;
    let mut buf = u32_to_le_bytes(len);
    let mut tsb = u64_to_le_bytes(ts);
    buf.append(&mut tsb);
    buf.extend_from_slice(payload);
    proof {
        assert(buf@ =~= spec_frame(ts, payload@));
    }
    buf
}

/// Decode the frame that begins at byte offset `pos` of `chunk`, applying
/// the timestamp sanity gate at clock reading `now`. This is one sequential
/// read: on success it returns the record and the offset of the next frame.
/// It fails with `QueueError::Frame` exactly when no whole frame lies at
/// `pos` or the timestamp falls outside the window.
pub fn read_frame(chunk: &[u8], pos: usize, now: u64) -> (r: Result<(Item, usize), QueueError>)
    ensures
        match r {
            Result::Ok((item, next)) => {
                &&& spec_frame_at(chunk@, pos as int) matches Option::Some((ts, data, n))
                    && item.ts == ts && item.data@ == data && next == n
                &&& spec_ts_in_window(item.ts, now)
            },
            Result::Err(e) => {
                &&& e == QueueError::Frame
                &&& match spec_frame_at(chunk@, pos as int) {
                    Option::None => true,
                    Option::Some((ts, data, n)) => !spec_ts_in_window(ts, now),
                }
            },
        },
{
    if chunk.len() < 12 || pos > chunk.len() - 12 {
        return Err(QueueError::Frame);
    }
    let len = u32_from_le_bytes(slice_subrange(chunk, pos, pos + 4));
    let ts = u64_from_le_bytes(slice_subrange(chunk, pos + 4, pos + 12));
    if !ts_in_window(ts, now) {
        return Err(QueueError::Frame);
    }
    if (len as usize) > chunk.len() - pos - 12 {
        return Err(QueueError::Frame);
    }
    let next = pos + 12 + len as usize;
    let data = slice_to_vec(slice_subrange(chunk, pos + 12, next));
    Ok((Item { ts, data }, next))
}

/// The records of a run of items, as ghost data.
pub open spec fn items_view(items: Seq<Item>) -> Seq<Entry> {
    Seq::new(items.len(), |i: int| (items[i].ts, items[i].data@))
}

/// Read up to `max` records sequentially, starting at byte offset `from`
/// of `chunk`, stopping early at the first offset where no whole frame
/// lies or the timestamp falls outside the sanity window at clock reading
/// `now`. Returns the records in stream order together with the byte
/// offset at which reading stopped — the position to resume from.
pub fn read_records(chunk: &[u8], from: usize, max: u64, now: u64) -> (r: (Vec<Item>, usize))
    ensures
        r.0@.len() <= max,
        items_view(r.0@) == spec_read_all(chunk@, from as int).take(r.0@.len() as int),
        spec_read_all(chunk@, r.1 as int) == spec_read_all(chunk@, from as int).skip(
            r.0@.len() as int,
        ),
        forall|i: int| 0 <= i < r.0@.len() ==> spec_ts_in_window(#[trigger] r.0@[i].ts, now),
        r.0@.len() < max ==> (spec_frame_at(chunk@, r.1 as int) is None || !spec_ts_in_window(
            spec_frame_at(chunk@, r.1 as int)->Some_0.0,
            now,
        )),
{
    let ghost all = spec_read_all(chunk@, from as int);
    let mut items: Vec<Item> = Vec::new();
    let mut pos = from;
    while (items.len() as u64) < max
        invariant
            items@.len() <= max,
            items_view(items@) == all.take(items@.len() as int),
            spec_read_all(chunk@, pos as int) == all.skip(items@.len() as int),
            forall|i: int| 0 <= i < items@.len() ==> spec_ts_in_window(#[trigger] items@[i].ts, now),
            all == spec_read_all(chunk@, from as int),
            items@.len() <= all.len(),
        ensures
            items@.len() == max || (spec_frame_at(chunk@, pos as int) is None || !spec_ts_in_window(
                spec_frame_at(chunk@, pos as int)->Some_0.0,
                now,
            )),
        decreases max - items.len(),
    {
        let ghost k = items@.len() as int;
        match read_frame(chunk, pos, now) {
            Ok((item, next)) => {
                proof {
                    let (ts, data, n) = spec_frame_at(chunk@, pos as int)->Some_0;
                    let rest = spec_read_all(chunk@, n);
                    assert(spec_read_all(chunk@, pos as int) == seq![(ts, data)] + rest);
                    assert(all.skip(k).len() == 1 + rest.len());
                    assert(k < all.len());
                    assert(all.skip(k)[0] == all[k]);
                    assert(all[k] == (ts, data));
                    assert(all.skip(k + 1) =~= all.skip(k).skip(1));
                    assert(all.skip(k).skip(1) =~= rest);
                }
                items.push(item);
                pos = next;
                proof {
                    assert(items_view(items@) =~= all.take(k + 1));
                }
            },
            Err(_) => {
                break ;
            },
        }
    }
    (items, pos)
}

} // verus!
