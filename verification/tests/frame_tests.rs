//! Frame encoding and decoding: exact bytes, round trips, order, and the
//! timestamp sanity gate.

use chunk_queue::frame::decode_header;
use chunk_queue::frame::encode_frame;
use chunk_queue::frame::read_frame;
use chunk_queue::frame::read_records;
use chunk_queue::frame::ts_in_window;
use chunk_queue::QueueError;

#[test]
fn encode_frame_exact_bytes() {
    let bytes = encode_frame(5, b"abc");
    assert_eq!(bytes, vec![3, 0, 0, 0, 5, 0, 0, 0, 0, 0, 0, 0, 97, 98, 99]);
}

#[test]
fn encode_frame_empty_payload() {
    let bytes = encode_frame(0x0102030405060708, b"");
    assert_eq!(bytes, vec![0, 0, 0, 0, 8, 7, 6, 5, 4, 3, 2, 1]);
}

#[test]
fn decode_header_exact() {
    let h = decode_header(&[3, 0, 0, 0, 5, 0, 0, 0, 0, 0, 0, 0]);
    assert_eq!(h.len, 3);
    assert_eq!(h.ts, 5);
    let h2 = decode_header(&[0x78, 0x56, 0x34, 0x12, 1, 0, 0, 0, 0, 0, 0, 0xff]);
    assert_eq!(h2.len, 0x12345678);
    assert_eq!(h2.ts, 0xff00000000000001);
}

#[test]
fn read_frame_round_trip() {
    let now = 1_000_000;
    let bytes = encode_frame(now, b"hello");
    let (item, next) = read_frame(&bytes, 0, now).unwrap();
    assert_eq!(item.ts, now);
    assert_eq!(item.data, b"hello".to_vec());
    assert_eq!(next, 17);
}

#[test]
fn read_frames_in_enqueue_order() {
    let now = 1_000_000;
    let mut stream = Vec::new();
    stream.extend(encode_frame(now, b"a"));
    stream.extend(encode_frame(now, b"bb"));
    stream.extend(encode_frame(now, b"ccc"));
    let mut pos = 0;
    let mut seen: Vec<Vec<u8>> = Vec::new();
    while let Ok((item, next)) = read_frame(&stream, pos, now) {
        seen.push(item.data);
        pos = next;
    }
    assert_eq!(seen, vec![b"a".to_vec(), b"bb".to_vec(), b"ccc".to_vec()]);
    assert_eq!(pos, stream.len());
    match read_frame(&stream, pos, now) {
        Err(e) => assert_eq!(e, QueueError::Frame),
        Ok(_) => panic!("read past the end of the stream"),
    }
}

#[test]
fn read_frame_resumes_at_offset() {
    let now = 1_000_000;
    let mut stream = Vec::new();
    let mut offsets = Vec::new();
    for i in 0..100u32 {
        offsets.push(stream.len());
        stream.extend(encode_frame(now, format!("{}", i).as_bytes()));
    }
    // resume exactly at record 40 and drain: records 40..=99 in order
    let mut pos = offsets[40];
    let mut seen = Vec::new();
    while let Ok((item, next)) = read_frame(&stream, pos, now) {
        seen.push(String::from_utf8(item.data).unwrap());
        pos = next;
    }
    let expect: Vec<String> = (40..100).map(|i| format!("{}", i)).collect();
    assert_eq!(seen, expect);
}

#[test]
fn sequential_reads_never_repeat_a_record() {
    let now = 1_000_000;
    let mut stream = Vec::new();
    for i in 0..20u32 {
        stream.extend(encode_frame(now, format!("r{}", i).as_bytes()));
    }
    // two dequeues, each resuming at the byte offset the previous left:
    // together they return every record exactly once
    let mut pos = 0;
    let mut first = Vec::new();
    for _ in 0..8 {
        let (item, next) = read_frame(&stream, pos, now).unwrap();
        first.push(item.data);
        pos = next;
    }
    let mut second = Vec::new();
    while let Ok((item, next)) = read_frame(&stream, pos, now) {
        second.push(item.data);
        pos = next;
    }
    let mut all = first;
    all.extend(second);
    let expect: Vec<Vec<u8>> = (0..20).map(|i| format!("r{}", i).into_bytes()).collect();
    assert_eq!(all, expect);
}

#[test]
fn read_frame_rejects_truncated_header() {
    let now = 1_000_000;
    let bytes = encode_frame(now, b"abc");
    assert!(read_frame(&bytes[..11], 0, now).is_err());
    assert!(read_frame(&bytes, 1, now).is_err());
}

#[test]
fn read_frame_rejects_overrunning_length() {
    let now = 1_000_000;
    let mut bytes = encode_frame(now, b"abc");
    bytes.truncate(14);
    assert!(read_frame(&bytes, 0, now).is_err());
}

#[test]
fn read_frame_rejects_timestamp_outside_window() {
    let now: u64 = 2_000_000;
    let ok_old = encode_frame(now - 864000, b"x");
    let too_old = encode_frame(now - 864001, b"x");
    let future = encode_frame(now + 1, b"x");
    assert!(read_frame(&ok_old, 0, now).is_ok());
    assert!(read_frame(&too_old, 0, now).is_err());
    assert!(read_frame(&future, 0, now).is_err());
}

#[test]
fn read_records_drains_in_order() {
    let now = 1_000_000;
    let mut stream = Vec::new();
    stream.extend(encode_frame(now, b"a"));
    stream.extend(encode_frame(now, b"bb"));
    stream.extend(encode_frame(now, b"ccc"));
    let (items, stop) = read_records(&stream, 0, 1_000, now);
    let got: Vec<Vec<u8>> = items.into_iter().map(|i| i.data).collect();
    assert_eq!(got, vec![b"a".to_vec(), b"bb".to_vec(), b"ccc".to_vec()]);
    assert_eq!(stop, stream.len());
    // drained: another read returns nothing more
    let (rest, stop2) = read_records(&stream, stop, 1_000, now);
    assert!(rest.is_empty());
    assert_eq!(stop2, stop);
}

#[test]
fn read_records_in_batches_of_ten() {
    let now = 1_000_000;
    let mut stream = Vec::new();
    for i in 0..100u32 {
        for j in 0..10u32 {
            stream.extend(encode_frame(now, format!("{}_{}", i, j).as_bytes()));
        }
    }
    let mut pos = 0;
    let mut drained: Vec<String> = Vec::new();
    loop {
        let (items, next) = read_records(&stream, pos, 10, now);
        if items.is_empty() {
            break;
        }
        assert!(items.len() <= 10);
        for item in items {
            drained.push(String::from_utf8(item.data).unwrap());
        }
        pos = next;
    }
    assert_eq!(drained.len(), 1000);
    let mut expect = Vec::new();
    for i in 0..100u32 {
        for j in 0..10u32 {
            expect.push(format!("{}_{}", i, j));
        }
    }
    assert_eq!(drained, expect);
}

#[test]
fn read_records_resumes_mid_stream() {
    let now = 1_000_000;
    let mut stream = Vec::new();
    for i in 0..100u32 {
        stream.extend(encode_frame(now, format!("{}", i).as_bytes()));
    }
    let (first, pos) = read_records(&stream, 0, 40, now);
    assert_eq!(first.len(), 40);
    let (rest, _) = read_records(&stream, pos, 1_000, now);
    let got: Vec<String> = rest.into_iter().map(|i| String::from_utf8(i.data).unwrap()).collect();
    let expect: Vec<String> = (40..100).map(|i| format!("{}", i)).collect();
    assert_eq!(got, expect);
}

#[test]
fn read_records_stops_at_expired_timestamp() {
    let now: u64 = 2_000_000;
    let mut stream = Vec::new();
    stream.extend(encode_frame(now, b"fresh"));
    stream.extend(encode_frame(now - 864001, b"stale"));
    stream.extend(encode_frame(now, b"after"));
    let (items, stop) = read_records(&stream, 0, 1_000, now);
    assert_eq!(items.len(), 1);
    assert_eq!(items[0].data, b"fresh".to_vec());
    // stopped right at the stale frame
    assert_eq!(stop, 12 + 5);
}

#[test]
fn ts_window_edges() {
    let now: u64 = 1_000_000_000;
    assert!(ts_in_window(now, now));
    assert!(ts_in_window(now - 864000, now));
    assert!(!ts_in_window(now - 864001, now));
    assert!(!ts_in_window(now + 1, now));
    // near the epoch the whole past is inside the window
    assert!(ts_in_window(0, 5));
    assert!(!ts_in_window(6, 5));
}
