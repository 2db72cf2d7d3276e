//! FLV tags and preview frames, byte by byte.

use bumps_pipe::flv::{flv_header_bytes, flv_tag, is_avc_sequence_header_tag, TAG_TYPE_VIDEO};
use bumps_pipe::preview::frame_of;
use bumps_pipe::wsproto::FrameChunk;
use bytes::Bytes;

#[test]
fn flv_header_is_thirteen_bytes() {
    let h = flv_header_bytes();
    assert_eq!(&h[..], &[0x46, 0x4C, 0x56, 1, 1, 0, 0, 0, 9, 0, 0, 0, 0]);
}

#[test]
fn flv_tag_layout() {
    let tag = flv_tag(TAG_TYPE_VIDEO, 0x12345678, &[0xAA, 0xBB, 0xCC]);
    assert_eq!(
        &tag[..],
        &[9, 0, 0, 3, 0x34, 0x56, 0x78, 0x12, 0, 0, 0, 0xAA, 0xBB, 0xCC, 0, 0, 0, 14]
    );
}

#[test]
fn flv_tag_of_nothing() {
    let tag = flv_tag(TAG_TYPE_VIDEO, 0, &[]);
    assert_eq!(&tag[..], &[9, 0, 0, 0, 0, 0, 0, 0, 0, 0, 0, 0, 0, 0, 11]);
}

#[test]
fn flv_tag_reads_back() {
    let payload: Vec<u8> = (0..70_000u32).map(|i| (i % 251) as u8).collect();
    let tag = flv_tag(TAG_TYPE_VIDEO, 4_000_000_000, &payload);
    let size = (tag[1] as u32) << 16 | (tag[2] as u32) << 8 | tag[3] as u32;
    assert_eq!(size, 70_000);
    let time =
        (tag[7] as u32) << 24 | (tag[4] as u32) << 16 | (tag[5] as u32) << 8 | tag[6] as u32;
    assert_eq!(time, 4_000_000_000);
    assert_eq!(&tag[11..11 + 70_000], &payload[..]);
    let n = tag.len();
    let total = (tag[n - 4] as u32) << 24
        | (tag[n - 3] as u32) << 16
        | (tag[n - 2] as u32) << 8
        | tag[n - 1] as u32;
    assert_eq!(total, 70_011);
}

#[test]
fn sequence_header_tags_are_told_apart() {
    let header = flv_tag(TAG_TYPE_VIDEO, 0, &[0x17, 0x00, 0, 0, 0, 1]);
    assert!(is_avc_sequence_header_tag(&header));
    let keyframe = flv_tag(TAG_TYPE_VIDEO, 0, &[0x17, 0x01, 0, 0, 0, 1]);
    assert!(!is_avc_sequence_header_tag(&keyframe));
    let inter = flv_tag(TAG_TYPE_VIDEO, 0, &[0x27, 0x00, 0, 0, 0, 1]);
    assert!(!is_avc_sequence_header_tag(&inter));
    let other_codec = flv_tag(TAG_TYPE_VIDEO, 0, &[0x12, 0x00, 0, 0, 0, 1]);
    assert!(!is_avc_sequence_header_tag(&other_codec));
    let audio = flv_tag(8, 0, &[0x17, 0x00, 0, 0, 0, 1]);
    assert!(!is_avc_sequence_header_tag(&audio));
    assert!(!is_avc_sequence_header_tag(&flv_header_bytes()));
    assert!(!is_avc_sequence_header_tag(&Bytes::from(vec![9u8; 12])));
}

#[test]
fn frame_wire_form() {
    let f = FrameChunk {
        pts_us: 0x0102030405060708,
        is_keyframe: true,
        data: Bytes::from(vec![0xDE, 0xAD]),
    };
    assert_eq!(&f.encode()[..], &[1, 8, 7, 6, 5, 4, 3, 2, 1, 0xDE, 0xAD]);
    let g = FrameChunk {
        pts_us: 1,
        is_keyframe: false,
        data: Bytes::new(),
    };
    assert_eq!(&g.encode()[..], &[0, 1, 0, 0, 0, 0, 0, 0, 0]);
}

#[test]
fn frame_reads_back() {
    let f = FrameChunk {
        pts_us: 123_456_789_012,
        is_keyframe: true,
        data: Bytes::from(vec![5, 6, 7]),
    };
    let wire = f.encode();
    let mut pts = [0u8; 8];
    pts.copy_from_slice(&wire[1..9]);
    assert_eq!(u64::from_le_bytes(pts), 123_456_789_012);
    assert_eq!(wire[0] & 1, 1);
    assert_eq!(&wire[9..], &[5, 6, 7]);
}

#[test]
fn access_unit_becomes_frame() {
    let f = frame_of(Some(1_234_567), false, &[1, 2, 3]);
    assert_eq!(f.pts_us, 1_234);
    assert!(f.is_keyframe);
    assert_eq!(&f.data[..], &[1, 2, 3]);
    let g = frame_of(None, true, &[]);
    assert_eq!(g.pts_us, 0);
    assert!(!g.is_keyframe);
    assert_eq!(g.data.len(), 0);
}
