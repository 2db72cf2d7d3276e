//! The preview tap: encoded access units on their way to the dashboard.

use bytes::Bytes;
use vstd::prelude::*;

use crate::buffer;
use crate::codec;
use crate::codec::VideoCaps;
use crate::wsproto::{FrameChunk, InitInfo};

verus! {

/// What the preview tap of one pipeline remembers.
#[derive(Debug, Clone, Copy, PartialEq, Eq, Structural)]
pub struct PreviewTap {
    /// The decoder settings of this pipeline's stream have been published.
    pub init_sent: bool,
}

/// The format says all that a decoder needs.
pub open spec fn usable(caps: Option<VideoCaps>) -> bool {
    caps matches Some(c) && c.width is Some && c.height is Some && codec::codec_spec(c) is Some
}

impl PreviewTap {
    /// Before the first access unit.
    pub fn new() -> (t: PreviewTap)
        ensures
            !t.init_sent,
    {
        PreviewTap { init_sent: false }
    }

    /// The decoder settings to publish before an access unit of this format: those
    /// of the first format that says all a decoder needs, once.
    pub fn on_format(&mut self, caps: &Option<VideoCaps>) -> (info: Option<InitInfo>)
        requires
            !old(self).init_sent ==> (*caps matches Some(c) ==> codec::level_fits(c)),
        ensures
            info is Some == (!old(self).init_sent && usable(*caps)),
            info matches Some(i) ==> codec::describes(i, caps->0),
            final(self).init_sent == (old(self).init_sent || usable(*caps)),
    {
        if self.init_sent {
            return None;
        }
        match caps {
            None => None,
            Some(c) => {
                let info = codec::init_from_caps(c);
                if info.is_some() {
                    self.init_sent = true;
                }
                info
            },
        }
    }
}

/// An access unit as preview clients get it: its timestamp in microseconds, zero
/// where it has none, and whether it can be decoded by itself.
pub fn frame_of(pts_ns: Option<u64>, delta_unit: bool, data: &[u8]) -> (f: FrameChunk)
    ensures
        f.pts_us == match pts_ns {
            Some(t) => t / 1000,
            None => 0,
        },
        f.is_keyframe == !delta_unit,
        buffer::bytes_content(f.data) == data@,
{
    let pts_us: u64 = match pts_ns {
        Some(t) => t / 1000,
        None => 0,
    };
    FrameChunk { pts_us, is_keyframe: !delta_unit, data: Bytes::copy_from_slice(data) }
}

// ── laws ────────────────────────────────────────────────────────────────────

/// How often decoder settings are published over a run of access units.
pub open spec fn published(sent: bool, formats: Seq<Option<VideoCaps>>) -> nat
    decreases formats.len(),
{
    if formats.len() == 0 {
        0
    } else {
        let rest = formats.skip(1);
        if !sent && usable(formats[0]) {
            1 + published(true, rest)
        } else {
            published(sent, rest)
        }
    }
}

/// Over the life of a pipeline the decoder settings are published at most once,
/// and they are as soon as some access unit comes in a usable format.
pub proof fn law_init_is_published_once(sent: bool, formats: Seq<Option<VideoCaps>>)
    ensures
        sent ==> published(sent, formats) == 0,
        !sent ==> published(sent, formats) == if exists|i: int|
            0 <= i < formats.len() && usable(#[trigger] formats[i]) {
            1nat
        } else {
            0nat
        },
    decreases formats.len(),
{
    if formats.len() > 0 {
        let rest = formats.skip(1);
        law_init_is_published_once(sent, rest);
        law_init_is_published_once(true, rest);
        if !sent && !usable(formats[0]) {
            if exists|i: int| 0 <= i < rest.len() && usable(#[trigger] rest[i]) {
                let i = choose|i: int| 0 <= i < rest.len() && usable(#[trigger] rest[i]);
                assert(usable(formats[i + 1]));
            }
            if exists|i: int| 0 <= i < formats.len() && usable(#[trigger] formats[i]) {
                let i = choose|i: int| 0 <= i < formats.len() && usable(#[trigger] formats[i]);
                assert(usable(rest[i - 1]));
            }
        }
    }
}

/// A format is usable exactly where it says the width and the height, and its media type
/// is one for which there is a codec string.
pub proof fn law_what_is_usable(c: VideoCaps)
    ensures
        !usable(None),
        usable(Some(c)) <==> c.width is Some && c.height is Some && codec::codec_spec(c) is Some,
{
}

} // verus!
