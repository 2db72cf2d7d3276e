//! Wire protocol between the relay and the browser dashboard.

use bytes::Bytes;
use vstd::prelude::*;

use crate::buffer;

verus! {

/// Codec and resolution that the browser's decoder needs.
#[derive(Debug, Clone, PartialEq, Eq)]
pub struct InitInfo {
    /// Codec string, such as "hev1.1.6.L93.B0" or "avc1.42C01F".
    pub codec: String,
    pub width: u32,
    pub height: u32,
    pub fps_num: u32,
    pub fps_den: u32,
}

/// A notice for the dashboard's event banner.
#[derive(Debug, Clone)]
pub struct EventMsg {
    pub severity: String,
    pub message: String,
}

/// Commands from the dashboard's operator controls.
#[derive(Debug, Clone, Copy, PartialEq, Eq, Structural)]
pub enum ClientMsg {
    /// Make the encoder emit a keyframe at once.
    RequestKeyframe,
    /// Pin the encoder bitrate, holding the adapter off until cleared. `kbps` is
    /// clamped to the adapter's configured range.
    SetBitrate { kbps: u32 },
    /// Release a pin; the adapter resumes.
    ClearBitrateOverride,
    /// Tear the pipeline down and rebuild it at once.
    RestartPipeline,
}

/// One encoded access unit for the browser preview.
#[derive(Debug, Clone)]
pub struct FrameChunk {
    pub pts_us: u64,
    pub is_keyframe: bool,
    pub data: Bytes,
}

/// The wire form of a frame: a flags byte whose lowest bit marks a keyframe, the
/// timestamp in eight bytes, least significant first, and the payload.
pub open spec fn frame_spec(pts_us: u64, is_keyframe: bool, data: Seq<u8>) -> Seq<u8> {
    seq![
        if is_keyframe {
            1u8
        } else {
            0u8
        },
    ] + buffer::le64(pts_us as nat) + data
}

impl FrameChunk {
    /// The frame in its wire form.
    pub fn encode(&self) -> (r: Bytes)
        requires
            buffer::bytes_content(self.data).len() + 9 <= isize::MAX,
        ensures
            buffer::bytes_content(r) == frame_spec(
                self.pts_us,
                self.is_keyframe,
                buffer::bytes_content(self.data),
            ),
    {
        let data = buffer::bytes_slice(&self.data);
        let mut b = buffer::buf_with_capacity(9 + data.len());
        buffer::put_u8(
            &mut b,
            if self.is_keyframe {
                0x01
            } else {
                0x00
            },
        );
        buffer::put_u64_le(&mut b, self.pts_us);
        buffer::put_slice(&mut b, data);
        assert(buffer::buf_content(b) =~= frame_spec(
            self.pts_us,
            self.is_keyframe,
            buffer::bytes_content(self.data),
        ));
        buffer::freeze(b)
    }
}

// ── laws ────────────────────────────────────────────────────────────────────

/// What the browser makes of a frame on the wire: timestamp, keyframe mark and
/// payload.
pub open spec fn read_frame(wire: Seq<u8>) -> (nat, bool, Seq<u8>) {
    (buffer::from_le(wire.subrange(1, 9)), wire[0] % 2 == 1, wire.skip(9))
}

/// A frame reads back from the wire as it was sent.
pub proof fn law_frame_reads_back(pts_us: u64, is_keyframe: bool, data: Seq<u8>)
    ensures
        read_frame(frame_spec(pts_us, is_keyframe, data)) == (pts_us as nat, is_keyframe, data),
{
    let wire = frame_spec(pts_us, is_keyframe, data);
    buffer::lemma_le64_reads_back(pts_us);
    assert(wire.subrange(1, 9) =~= buffer::le64(pts_us as nat));
    assert(wire.skip(9) =~= data);
}

/// The bytes of a frame: the mark, the timestamp with its lowest byte first, and the
/// access unit as it is.
pub proof fn law_frame_bytes(pts_us: u64, is_keyframe: bool, data: Seq<u8>)
    ensures
        ({
            let wire = frame_spec(pts_us, is_keyframe, data);
            &&& wire.len() == data.len() + 9
            &&& wire[0] == if is_keyframe {
                1u8
            } else {
                0u8
            }
            &&& wire[1] == pts_us % 0x100
            &&& wire[2] == pts_us / 0x100 % 0x100
            &&& wire[8] == pts_us / 0x100_0000_0000_0000
            &&& wire.skip(9) == data
        }),
{
    reveal_with_fuel(buffer::byte_of, 9);
    let wire = frame_spec(pts_us, is_keyframe, data);
    assert(wire.skip(9) =~= data);
}

} // verus!
