//! What the RTMP session survives, and that the rest is kept from it.

use bumps_pipe::amf0::{count_values, Values};
use bumps_pipe::chunks::{ChunkReader, Verdict};
use bumps_pipe::rtmp::{ConnError, Received, RtmpConn};
use bytes::Bytes;
use rml_rtmp::chunk_io::ChunkSerializer;
use rml_rtmp::messages::MessagePayload;
use rml_rtmp::time::RtmpTimestamp;

fn text(s: &str) -> Vec<u8> {
    let mut out = vec![2];
    out.extend((s.len() as u16).to_be_bytes());
    out.extend(s.as_bytes());
    out
}

/// A message on chunk stream 3, with a full header, in one chunk.
fn message(kind: u8, data: &[u8]) -> Vec<u8> {
    let n = data.len() as u32;
    let mut out = vec![3, 0, 0, 0];
    out.extend(&n.to_be_bytes()[1..]);
    out.push(kind);
    out.extend([0, 0, 0, 0]);
    out.extend(data);
    out
}

fn nested(depth: usize) -> Vec<u8> {
    let mut out = Vec::new();
    for _ in 0..depth {
        out.extend([10, 0, 0, 0, 1]);
    }
    out.push(5);
    out
}

fn chunk_size(n: u32) -> Vec<u8> {
    message(1, &n.to_be_bytes())
}

/// What the server says to some bytes, all at once and byte by byte.
fn verdict(bytes: &[u8]) -> Option<ConnError> {
    let (mut conn, _) = RtmpConn::start("p".to_string(), &[]).unwrap();
    let mut last = None;
    for b in bytes {
        match conn.receive(&[*b]) {
            Received::Batch(batch) => last = batch.failed,
            Received::Ended(_) => panic!("ended"),
        }
        if last.is_some() {
            break;
        }
    }
    let (mut conn, _) = RtmpConn::start("p".to_string(), &[]).unwrap();
    match conn.receive(bytes) {
        Received::Batch(batch) => {
            assert_eq!(
                format!("{:?}", batch.failed),
                format!("{last:?}"),
                "portions matter"
            );
            batch.failed
        }
        Received::Ended(_) => panic!("ended"),
    }
}

fn is_malformed(bytes: &[u8]) -> bool {
    matches!(verdict(bytes), Some(ConnError::Malformed))
}

#[test]
fn values_are_counted() {
    assert_eq!(count_values(&[]), Values::Count(0));
    assert_eq!(count_values(&[5, 6, 1, 0, 9, 77]), Values::Count(3));
    assert_eq!(count_values(&[0, 1, 2, 3, 4, 5, 6, 7, 8]), Values::Count(1));
    assert_eq!(count_values(&[0, 1, 2]), Values::Broken);
    assert_eq!(count_values(&[2, 0, 9, b'x']), Values::Count(1));
    assert_eq!(count_values(&[2, 0]), Values::Broken);
    assert_eq!(count_values(&[4]), Values::Broken);
    assert_eq!(count_values(&[3, 0, 1, b'a', 5, 0, 0, 9, 5]), Values::Count(2));
    assert_eq!(count_values(&[8, 0, 0, 0, 9, 0, 0, 9]), Values::Count(1));
    assert_eq!(count_values(&[3, 0, 0, 8]), Values::Broken);
    assert_eq!(count_values(&[3, 0, 1, b'a']), Values::Broken);
    assert_eq!(count_values(&[10, 0, 0, 0, 2, 5, 5, 5]), Values::Count(2));
    assert_eq!(count_values(&[10, 0, 0, 0, 2, 9, 5]), Values::Count(2));
    assert_eq!(count_values(&[10, 0, 0, 0, 0]), Values::Count(1));
    assert_eq!(count_values(&nested(128)), Values::Count(1));
    assert_eq!(count_values(&nested(129)), Values::TooDeep);
}

#[test]
fn a_data_frame_without_data_is_kept_from_the_session() {
    let mut data = text("@setDataFrame");
    assert!(is_malformed(&message(18, &data)));
    assert!(is_malformed(&message(15, &data)));
    data.extend(text("onMetaData"));
    let mut frame = message(18, &data);
    frame[8] = 1;
    assert!(verdict(&frame).is_none());
    let mut published = beginning();
    published.extend(message(18, &data));
    assert!(verdict(&published).is_none());
    let mut published = beginning();
    published.extend(frame);
    assert!(is_malformed(&published));
    data.push(5);
    assert!(verdict(&message(18, &data)).is_none());
    assert!(verdict(&message(18, &text("other"))).is_none());
    assert!(verdict(&message(18, &[])).is_none());
}

#[test]
fn a_command_of_too_few_values_is_kept_from_the_session() {
    assert!(is_malformed(&message(20, &[])));
    assert!(is_malformed(&message(20, &[5, 5])));
    assert!(is_malformed(&message(17, &[0, 5, 5])));
    let mut data = text("nothing");
    data.extend([0, 0, 0, 0, 0, 0, 0, 0, 0]);
    assert!(is_malformed(&message(20, &data)));
    data.push(5);
    assert!(verdict(&message(20, &data)).is_none());
    data.insert(0, 0);
    assert!(verdict(&message(17, &data)).is_none());
}

#[test]
fn deep_values_are_kept_from_the_session() {
    let mut shallow = chunk_size(100_000);
    shallow.extend(message(18, &nested(128)));
    assert!(verdict(&shallow).is_none());
    let mut deep = chunk_size(100_000);
    deep.extend(message(18, &nested(129)));
    assert!(is_malformed(&deep));
}

#[test]
fn a_shrinking_message_is_kept_from_the_session() {
    let mut bytes = message(9, &[0; 128]);
    bytes[6] = 200;
    assert!(verdict(&bytes).is_none());
    bytes.extend([0x43, 0, 0, 0, 0, 0, 5, 9]);
    assert!(is_malformed(&bytes));
}

#[test]
fn a_needless_extended_difference_is_kept_from_the_session() {
    let mut bytes = message(9, &[1]);
    bytes.extend([0x83, 0xFF, 0xFF, 0xFF, 0, 0, 0, 1]);
    assert!(is_malformed(&bytes));
    let mut bytes = message(9, &[1]);
    bytes.extend([0x83, 0xFF, 0xFF, 0xFF, 1, 0, 0, 0, 7]);
    assert!(verdict(&bytes).is_none());
}

#[test]
fn what_the_session_refuses_reaches_it() {
    assert!(matches!(verdict(&[0xC3]), Some(ConnError::HandleInput(_))));
    assert!(matches!(
        verdict(&chunk_size(0x8000_0000)),
        Some(ConnError::HandleInput(_))
    ));
    assert!(matches!(
        verdict(&message(5, &[1])),
        Some(ConnError::HandleInput(_))
    ));
    assert!(matches!(
        verdict(&message(18, &[4])),
        Some(ConnError::HandleInput(_))
    ));
}

#[test]
fn what_follows_the_handshake_is_tested_too() {
    let faulty = message(20, &[5]);
    assert!(matches!(
        RtmpConn::start("p".to_string(), &faulty),
        Err(ConnError::Malformed)
    ));
    assert!(matches!(
        RtmpConn::start("p".to_string(), &[0xC3]),
        Err(ConnError::HandleLeftover(_))
    ));
}

#[test]
fn the_reader_keeps_up_with_a_real_sender() {
    let mut sender = ChunkSerializer::new();
    let mut reader = ChunkReader::new();
    let mut bytes = Vec::new();
    for i in 0..40u32 {
        if i == 20 {
            let p = sender.set_max_chunk_size(700, RtmpTimestamp::new(i)).unwrap();
            bytes.extend(p.bytes);
        }
        let payload = MessagePayload {
            timestamp: RtmpTimestamp::new(i * 40 + if i > 30 { 20_000_000 } else { 0 }),
            type_id: if i % 3 == 0 { 8 } else { 9 },
            message_stream_id: 1,
            data: Bytes::from(vec![i as u8; (i * 37) as usize]),
        };
        bytes.extend(sender.serialize(&payload, false, false).unwrap().bytes);
    }
    bytes.extend(message(5, &[0, 0, 16, 0]));
    for portion in bytes.chunks(11) {
        assert_eq!(reader.feed(portion), Verdict::Fine);
    }
    assert_eq!(reader.ack_size(), Some(4096));
    assert_eq!(reader.feed(&[0xFF]), Verdict::Refused);
}

#[test]
fn acknowledgements_follow_the_count() {
    let (mut conn, _) = RtmpConn::start("p".to_string(), &[]).unwrap();
    match conn.receive(&message(5, &[0, 0, 0, 30])) {
        Received::Batch(batch) => assert!(batch.failed.is_none() && batch.actions.is_empty()),
        Received::Ended(_) => panic!("ended"),
    }
    let mut sent = Vec::new();
    for _ in 0..4 {
        match conn.receive(&message(9, &[0, 0])) {
            Received::Batch(batch) => sent.push(batch.actions.len()),
            Received::Ended(_) => panic!("ended"),
        }
    }
    assert_eq!(sent, vec![0, 0, 1, 0]);
}

/// A connection's beginning: chunk size, window, connecting, a stream, publishing,
/// metadata and video.
fn beginning() -> Vec<u8> {
    let mut connect = text("connect");
    connect.extend([0, 0x3F, 0xF0, 0, 0, 0, 0, 0, 0, 3, 0, 3]);
    connect.extend(b"app");
    connect.extend(text("live"));
    connect.extend([0, 0, 9]);
    let mut create = text("createStream");
    create.extend([0, 0x40, 0, 0, 0, 0, 0, 0, 0, 5]);
    let mut publish = text("publish");
    publish.extend([0, 0x40, 8, 0, 0, 0, 0, 0, 0, 5]);
    publish.extend(text("k"));
    publish.extend(text("live"));
    let mut meta = text("@setDataFrame");
    meta.extend(text("onMetaData"));
    meta.extend([8, 0, 0, 0, 1, 0, 1, b'w', 10, 0, 0, 0, 1, 5, 0, 0, 9]);
    let mut out = chunk_size(90);
    out.extend(message(5, &[0, 0, 0, 99]));
    out.extend(message(20, &connect));
    out.extend(message(20, &create));
    for (kind, data) in [(20, publish), (18, meta), (9, vec![7; 60])] {
        let mut m = message(kind, &data);
        m[8] = 1;
        out.extend(m);
    }
    out
}

#[test]
fn damaged_input_is_survived() {
    let whole = beginning();
    assert!(verdict(&whole).is_none());
    let mut seed: u64 = 1;
    let mut random = |n: usize| {
        seed = seed.wrapping_mul(6_364_136_223_846_793_005).wrapping_add(1_442_695_040_888_963_407);
        (seed >> 33) as usize % n
    };
    let mut seen = [0; 3];
    for _ in 0..20_000 {
        let mut bytes = whole.clone();
        for _ in 0..1 + random(3) {
            let at = random(bytes.len());
            bytes[at] = match random(4) {
                0 => random(256) as u8,
                1 => random(12) as u8,
                2 => bytes[at] ^ 0xC0,
                _ => 0xFF,
            };
        }
        let (mut conn, _) = RtmpConn::start("p".to_string(), &[]).unwrap();
        let mut reader = ChunkReader::new();
        let mut at = 0;
        while at < bytes.len() {
            let end = (at + 1 + random(80)).min(bytes.len());
            let expected = reader.feed(&bytes[at..end]);
            let failed = match conn.receive(&bytes[at..end]) {
                Received::Batch(batch) => batch.failed,
                Received::Ended(_) => panic!("ended"),
            };
            match expected {
                Verdict::Fine => {
                    assert!(!matches!(failed, Some(ConnError::Malformed)));
                    seen[0] += 1;
                }
                Verdict::Refused => {
                    assert!(matches!(failed, Some(ConnError::HandleInput(_))));
                    seen[1] += 1;
                }
                Verdict::Faulty => {
                    assert!(matches!(failed, Some(ConnError::Malformed)));
                    seen[2] += 1;
                }
            }
            if failed.is_some() {
                break;
            }
            at = end;
        }
    }
    assert!(seen.iter().all(|n| *n > 100), "{seen:?}");
}
