//! FLV framing: the file header and the tags that carry the publisher's video.

use bytes::Bytes;
use vstd::prelude::*;

use crate::buffer;

verus! {

/// The type byte of a video tag.
pub const TAG_TYPE_VIDEO: u8 = 9;

/// FLV file header for a stream with video only, and the size of the tag before
/// the first one, which is zero.
pub open spec fn flv_header_spec() -> Seq<u8> {
    seq![0x46u8, 0x4C, 0x56, 1, 0x01] + buffer::be32(9) + buffer::be32(0)
}

/// FLV file header and the initial size field, as the pipeline sends it again
/// after a rebuild.
pub fn flv_header_bytes() -> (b: Bytes)
    ensures
        buffer::bytes_content(b) == flv_header_spec(),
{
    flv_header()
}

fn flv_header() -> (r: Bytes)
    ensures
        buffer::bytes_content(r) == flv_header_spec(),
{
    let mut b = buffer::buf_with_capacity(13);
    buffer::put_u8(&mut b, 0x46);
    buffer::put_u8(&mut b, 0x4C);
    buffer::put_u8(&mut b, 0x56);
    buffer::put_u8(&mut b, 1);
    buffer::put_u8(&mut b, 0x01);
    buffer::put_u32(&mut b, 9);
    buffer::put_u32(&mut b, 0);
    assert(buffer::buf_content(b) =~= flv_header_spec());
    buffer::freeze(b)
}

/// The payload length as a tag counts it, in 32 bits.
pub open spec fn counted_len(payload: Seq<u8>) -> nat {
    payload.len() % 0x1_0000_0000
}

/// One FLV tag: type, 24-bit size, 24 low bits of the timestamp and then its
/// high byte, a zero stream id, the payload, and the size of all of that.
pub open spec fn flv_tag_spec(tag_type: u8, timestamp_ms: u32, payload: Seq<u8>) -> Seq<u8> {
    seq![tag_type] + buffer::be24(counted_len(payload)) + buffer::be24(timestamp_ms as nat) + seq![
        buffer::byte_of(timestamp_ms as nat, 3),
        0u8,
        0u8,
        0u8,
    ] + payload + buffer::be32(11 + counted_len(payload))
}

proof fn lemma_shifted_bytes(n: u32)
    ensures
        (n >> 16) as u8 == buffer::byte_of(n as nat, 2),
        (n >> 8) as u8 == buffer::byte_of(n as nat, 1),
        n as u8 == buffer::byte_of(n as nat, 0),
        (n >> 24) as u8 == buffer::byte_of(n as nat, 3),
{
    reveal_with_fuel(buffer::byte_of, 4);
    assert((n >> 24) as u8 == (n / 0x100 / 0x100 / 0x100) % 0x100) by (bit_vector);
    assert((n >> 16) as u8 == (n / 0x100 / 0x100) % 0x100) by (bit_vector);
    assert((n >> 8) as u8 == (n / 0x100) % 0x100) by (bit_vector);
    assert(n as u8 == n % 0x100) by (bit_vector);
}

/// One FLV tag around `payload`.
pub fn flv_tag(tag_type: u8, timestamp_ms: u32, payload: &[u8]) -> (r: Bytes)
    requires
        payload@.len() + 15 <= isize::MAX,
        counted_len(payload@) + 11 <= u32::MAX,
    ensures
        buffer::bytes_content(r) == flv_tag_spec(tag_type, timestamp_ms, payload@),
{
    let len: u64 = payload.len() as u64;
    let data_size: u32 = #[verifier::truncate] (len as u32);
    proof {
        assert(len as u32 == len % 0x1_0000_0000) by (bit_vector);
        lemma_shifted_bytes(data_size);
        lemma_shifted_bytes(timestamp_ms);
    }
    let mut b = buffer::buf_with_capacity(11 + payload.len() + 4);
    buffer::put_u8(&mut b, tag_type);
    buffer::put_u8(&mut b, #[verifier::truncate] ((data_size >> 16) as u8));
    buffer::put_u8(&mut b, #[verifier::truncate] ((data_size >> 8) as u8));
    buffer::put_u8(&mut b, #[verifier::truncate] (data_size as u8));
    buffer::put_u8(&mut b, #[verifier::truncate] ((timestamp_ms >> 16) as u8));
    buffer::put_u8(&mut b, #[verifier::truncate] ((timestamp_ms >> 8) as u8));
    buffer::put_u8(&mut b, #[verifier::truncate] (timestamp_ms as u8));
    buffer::put_u8(&mut b, #[verifier::truncate] ((timestamp_ms >> 24) as u8));
    buffer::put_u8(&mut b, 0);
    buffer::put_u8(&mut b, 0);
    buffer::put_u8(&mut b, 0);
    buffer::put_slice(&mut b, payload);
    buffer::put_u32(&mut b, 11 + data_size);
    assert(buffer::buf_content(b) =~= flv_tag_spec(tag_type, timestamp_ms, payload@));
    buffer::freeze(b)
}

/// `chunk` is shaped like the video tag that carries an AVC sequence header:
/// type 9, a keyframe of codec 7, packet type 0.
pub open spec fn is_sequence_header(chunk: Seq<u8>) -> bool {
    chunk.len() >= 13 && chunk[0] == 9 && chunk[11] == 0x17 && chunk[12] == 0
}

/// Whether an FLV tag is the one that carries the AVC sequence header.
pub fn is_avc_sequence_header_tag(chunk: &Bytes) -> (yes: bool)
    ensures
        yes == is_sequence_header(buffer::bytes_content(*chunk)),
{
    let c = buffer::bytes_slice(chunk);
    if c.len() < 13 {
        return false;
    }
    if c[0] != 9 {
        return false;
    }
    let x: u8 = c[11];
    assert(x >> 4 == 1 && x & 0x0F == 7 <==> x == 0x17) by (bit_vector);
    let frame_type: u8 = x >> 4;
    let codec_id: u8 = x & 0x0F;
    if frame_type != 1 || codec_id != 7 {
        return false;
    }
    c[12] == 0
}

// ── laws ────────────────────────────────────────────────────────────────────

/// What a reader of the FLV format makes of a tag: its type, timestamp and
/// payload, or nothing where the two size fields do not fit the tag's length.
pub open spec fn read_tag(tag: Seq<u8>) -> Option<(u8, nat, Seq<u8>)> {
    let size = buffer::from_be(tag.subrange(1, 4));
    if tag.len() == 15 + size && buffer::from_be(tag.skip(11 + size as int)) == 11 + size {
        Some(
            (
                tag[0],
                tag[7] as nat * 0x100_0000 + buffer::from_be(tag.subrange(4, 7)),
                tag.subrange(11, 11 + size as int),
            ),
        )
    } else {
        None
    }
}

/// A tag reads back as the type, timestamp and payload that it was made of, as
/// long as the payload's size fits the 24-bit field.
pub proof fn law_tag_reads_back(tag_type: u8, timestamp_ms: u32, payload: Seq<u8>)
    requires
        payload.len() < 0x100_0000,
    ensures
        read_tag(flv_tag_spec(tag_type, timestamp_ms, payload)) == Some(
            (tag_type, timestamp_ms as nat, payload),
        ),
{
    let tag = flv_tag_spec(tag_type, timestamp_ms, payload);
    let size = payload.len();
    assert(counted_len(payload) == size);
    buffer::lemma_be24_reads_back(size);
    buffer::lemma_be24_reads_back(timestamp_ms as nat);
    buffer::lemma_be32_reads_back(11 + size);
    reveal_with_fuel(buffer::byte_of, 4);
    assert(tag.subrange(1, 4) =~= buffer::be24(size));
    assert(tag.subrange(4, 7) =~= buffer::be24(timestamp_ms as nat));
    assert(tag.subrange(11, 11 + size as int) =~= payload);
    assert(tag.skip(11 + size as int) =~= buffer::be32(11 + size));
    assert(tag[7] == buffer::byte_of(timestamp_ms as nat, 3));
}

/// A video tag is taken for a sequence header exactly when its payload begins
/// with an AVC keyframe byte and, where there is a second byte, that is zero.
pub proof fn law_sequence_header_tags(timestamp_ms: u32, payload: Seq<u8>)
    requires
        payload.len() < 0x100_0000,
    ensures
        is_sequence_header(flv_tag_spec(TAG_TYPE_VIDEO, timestamp_ms, payload)) == (payload.len()
            >= 1 && payload[0] == 0x17 && (payload.len() >= 2 ==> payload[1] == 0)),
{
    let tag = flv_tag_spec(TAG_TYPE_VIDEO, timestamp_ms, payload);
    reveal_with_fuel(buffer::byte_of, 4);
    if payload.len() == 0 {
        assert(tag[11] == buffer::byte_of(11, 3));
    } else if payload.len() == 1 {
        assert(tag[11] == payload[0]);
        assert(tag[12] == buffer::byte_of(12, 3));
    } else {
        assert(tag[11] == payload[0]);
        assert(tag[12] == payload[1]);
    }
}

/// The header of an FLV stream: `FLV`, version 1, video only, nine bytes, and a first
/// size of zero.
pub proof fn law_header_is_flv()
    ensures
        flv_header_spec() == seq![0x46u8, 0x4C, 0x56, 1, 1, 0, 0, 0, 9, 0, 0, 0, 0],
{
    reveal_with_fuel(buffer::byte_of, 4);
}

/// The bytes of a tag: its type, the size of its payload, its time with the high byte
/// last, no stream, the payload as it is, and the size of all that is before.
pub proof fn law_tag_bytes(tag_type: u8, timestamp_ms: u32, payload: Seq<u8>)
    requires
        payload.len() < 0x100_0000,
    ensures
        ({
            let tag = flv_tag_spec(tag_type, timestamp_ms, payload);
            let n = payload.len() as int;
            &&& tag.len() == n + 15
            &&& tag[0] == tag_type
            &&& tag[1] * 0x1_0000 + tag[2] * 0x100 + tag[3] == n
            &&& tag[7] * 0x100_0000 + tag[4] * 0x1_0000 + tag[5] * 0x100 + tag[6] == timestamp_ms
            &&& tag[8] == 0 && tag[9] == 0 && tag[10] == 0
            &&& tag.subrange(11, 11 + n) == payload
            &&& tag[n + 11] * 0x100_0000 + tag[n + 12] * 0x1_0000 + tag[n + 13] * 0x100 + tag[n
                + 14] == n + 11
        }),
{
    let tag = flv_tag_spec(tag_type, timestamp_ms, payload);
    reveal_with_fuel(buffer::byte_of, 4);
    assert(tag.subrange(11, 11 + payload.len() as int) =~= payload);
}

/// What is taken for the sequence header: a video tag with a keyframe of codec 7 and a
/// packet of type 0, and nothing else.
pub proof fn law_what_is_a_sequence_header(chunk: Seq<u8>)
    ensures
        is_sequence_header(chunk) <==> chunk.len() >= 13 && chunk[0] == 9 && chunk[11] / 16 == 1
            && chunk[11] % 16 == 7 && chunk[12] == 0,
{
}

} // verus!
