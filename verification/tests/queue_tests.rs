//! Chunk naming, retention arithmetic, dequeue tallying, and error kinds.

use chunk_queue::chunk_name::chunk_file_name;
use chunk_queue::consumer::rotations_needed;
use chunk_queue::consumer::Consumer;
use chunk_queue::consumer::PopTally;
use chunk_queue::consumer::DEFAULT_CHUNKS_TO_KEEP;
use chunk_queue::producer::DEFAULT_CHUNK_SIZE;
use chunk_queue::store::consumer_table_name;
use chunk_queue::store::key_bytes_read;
use chunk_queue::store::key_file;
use chunk_queue::store::key_offset;
use chunk_queue::store::producer_table_name;
use chunk_queue::Item;
use chunk_queue::QueueError;

#[test]
fn chunk_file_name_zero_padded_hex() {
    assert_eq!(chunk_file_name("/tmp/foo", "bar", 0), "/tmp/foo-bar-0000000000000000");
    assert_eq!(chunk_file_name("/tmp/foo", "bar", 3), "/tmp/foo-bar-0000000000000003");
    assert_eq!(chunk_file_name("root", "t", 0xdeadbeef), "root-t-00000000deadbeef");
    assert_eq!(chunk_file_name("r", "t", u64::MAX), "r-t-ffffffffffffffff");
}

#[test]
fn table_names() {
    assert_eq!(producer_table_name("test"), "test_producer");
    assert_eq!(consumer_table_name("test"), "test_consumer");
}

#[test]
fn cursor_keys() {
    assert_eq!(key_file(), "FILE");
    assert_eq!(key_offset(), "OFFSET");
    assert_eq!(key_bytes_read(), "BYTES_READ");
}

#[test]
fn defaults() {
    assert_eq!(DEFAULT_CHUNK_SIZE, 64 * 1024 * 1024);
    assert_eq!(DEFAULT_CHUNKS_TO_KEEP, 8);
}

#[test]
fn retention_rotations() {
    // five chunks live (0..=4), keep two: chunks 0, 1, 2 go
    assert_eq!(rotations_needed(0, 4, 2), 3);
    // within the window: nothing to do
    assert_eq!(rotations_needed(2, 4, 8), 0);
    assert_eq!(rotations_needed(4, 4, 1), 0);
    // keep zero: everything but the tail chunk itself goes
    assert_eq!(rotations_needed(0, 4, 0), 4);
    assert_eq!(rotations_needed(7, 7, 0), 0);
    // exactly at the bound
    assert_eq!(rotations_needed(3, 7, 5), 0);
    assert_eq!(rotations_needed(3, 7, 4), 1);
}

#[test]
fn pop_tally_counts_and_resets() {
    let mut tally = PopTally::new();
    assert_eq!(tally.delta, 0);
    tally.record_item();
    tally.record_item();
    tally.record_item();
    assert_eq!(tally.delta, 3);
    // a mid-loop rotation restarts the head-chunk tally at the one record
    // just read from the new chunk
    tally.record_rotation_item();
    assert_eq!(tally.delta, 1);
    tally.record_item();
    assert_eq!(tally.delta, 2);
}

#[test]
fn note_frame_advances_bytes() {
    let mut c = Consumer { chunks_to_keep: 8, file_num: 0, bytes_read: 0 };
    c.note_frame(5).unwrap();
    assert_eq!(c.bytes_read, 17);
    c.note_frame(0).unwrap();
    assert_eq!(c.bytes_read, 29);
    let mut near_end = Consumer { chunks_to_keep: 8, file_num: 0, bytes_read: u64::MAX - 11 };
    assert_eq!(near_end.note_frame(0), Err(QueueError::Invariant));
    assert_eq!(near_end.bytes_read, u64::MAX - 11);
}

#[test]
fn error_kinds_describe() {
    assert_eq!(QueueError::Index.describe(), "index store failure");
    assert_eq!(QueueError::Io.describe(), "chunk file i/o failure");
    assert_eq!(QueueError::Frame.describe(), "bad record frame");
    assert_eq!(QueueError::Invariant.describe(), "index invariant violated");
    assert!(QueueError::Frame == QueueError::Frame);
    assert!(QueueError::Frame != QueueError::Io);
}

#[test]
fn item_holds_timestamp_and_payload() {
    let item = Item { ts: 42, data: vec![1, 2, 3] };
    assert_eq!(item.ts, 42);
    assert_eq!(item.data, vec![1, 2, 3]);
}
