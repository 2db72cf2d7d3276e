//! Timestamp flattening: every buffer leaves with a later timestamp than the one
//! before it.
//!
//! The publisher now and then sends two frames with one timestamp. Encoders and
//! the transport stream muxer stall or reorder on that, so the second frame is
//! moved a little later. The correction is not carried forward: a frame that is
//! late enough by itself keeps its timestamp.

use vstd::prelude::*;

verus! {

/// How far past the one before it a colliding timestamp is moved, in nanoseconds:
/// one millisecond. It spans ninety ticks of the transport stream's clock, so it
/// survives the rounding to that clock, and it is a fraction of the time between
/// frames.
pub const FLATTEN_BUMP_NS: u64 = 1_000_000;

/// The timestamps that the last buffer left with, in nanoseconds.
#[derive(Debug, Clone, Copy, PartialEq, Eq, Structural)]
pub struct FlattenState {
    pub prev_pts: Option<u64>,
    pub prev_dts: Option<u64>,
}

/// A buffer's timestamps in nanoseconds, as far as it has any.
#[derive(Debug, Clone, Copy, PartialEq, Eq, Structural)]
pub struct Stamps {
    pub pts: Option<u64>,
    pub dts: Option<u64>,
}

/// `t` comes no later than `prev`.
pub open spec fn collides(prev: Option<u64>, t: Option<u64>) -> bool {
    match (prev, t) {
        (Some(p), Some(v)) => v <= p,
        _ => false,
    }
}

/// The timestamp that a buffer leaves with.
pub open spec fn flattened(prev: Option<u64>, t: Option<u64>) -> Option<u64> {
    if collides(prev, t) {
        Some((prev->0 + FLATTEN_BUMP_NS) as u64)
    } else {
        t
    }
}

/// The timestamp to compare the next one with.
pub open spec fn latest(prev: Option<u64>, t: Option<u64>) -> Option<u64> {
    if t is Some {
        flattened(prev, t)
    } else {
        prev
    }
}

/// Moving a timestamp past `prev` stays within the clock's range, whose last value
/// stands for no timestamp.
pub open spec fn has_room(prev: Option<u64>, t: Option<u64>) -> bool {
    collides(prev, t) ==> prev->0 + FLATTEN_BUMP_NS < u64::MAX
}

fn room_after(prev: Option<u64>, t: Option<u64>) -> (yes: bool)
    ensures
        yes == has_room(prev, t),
{
    match (prev, t) {
        (Some(p), Some(v)) => v > p || p < u64::MAX - FLATTEN_BUMP_NS,
        _ => true,
    }
}

impl FlattenState {
    /// Before the first buffer.
    pub fn new() -> (s: FlattenState)
        ensures
            s.prev_pts is None,
            s.prev_dts is None,
    {
        FlattenState { prev_pts: None, prev_dts: None }
    }

    /// Whether the timestamps of a buffer can be moved where they must be.
    pub fn fits(&self, buf: &Stamps) -> (yes: bool)
        ensures
            yes == (has_room(self.prev_pts, buf.pts) && has_room(self.prev_dts, buf.dts)),
    {
        room_after(self.prev_pts, buf.pts) && room_after(self.prev_dts, buf.dts)
    }

    /// Gives a buffer its timestamps, and says whether either had to be moved.
    pub fn step(&mut self, buf: Stamps) -> (r: (Stamps, bool))
        requires
            has_room(old(self).prev_pts, buf.pts),
            has_room(old(self).prev_dts, buf.dts),
        ensures
            r.0.pts == flattened(old(self).prev_pts, buf.pts),
            r.0.dts == flattened(old(self).prev_dts, buf.dts),
            r.1 == (collides(old(self).prev_pts, buf.pts) || collides(
                old(self).prev_dts,
                buf.dts,
            )),
            final(self).prev_pts == latest(old(self).prev_pts, buf.pts),
            final(self).prev_dts == latest(old(self).prev_dts, buf.dts),
    {
        let mut out = buf;
        let mut bumped = false;
        if let Some(dts) = buf.dts {
            if let Some(prev) = self.prev_dts {
                if dts <= prev {
                    out.dts = Some(prev + FLATTEN_BUMP_NS);
                    bumped = true;
                }
            }
            self.prev_dts = out.dts;
        }
        if let Some(pts) = buf.pts {
            if let Some(prev) = self.prev_pts {
                if pts <= prev {
                    out.pts = Some(prev + FLATTEN_BUMP_NS);
                    bumped = true;
                }
            }
            self.prev_pts = out.pts;
        }
        (out, bumped)
    }
}

// ── laws ────────────────────────────────────────────────────────────────────

/// What a run of timestamps becomes, over whole numbers.
pub open spec fn flattened_run(raw: Seq<nat>) -> Seq<nat>
    decreases raw.len(),
{
    if raw.len() == 0 {
        Seq::empty()
    } else {
        let before = flattened_run(raw.drop_last());
        before.push(
            if before.len() > 0 && raw.last() <= before.last() {
                before.last() + FLATTEN_BUMP_NS as nat
            } else {
                raw.last()
            },
        )
    }
}

/// One step of a run is what a buffer with that timestamp gets.
pub proof fn law_run_is_made_of_steps(raw: Seq<nat>, prev: u64, t: u64)
    requires
        raw.len() > 0,
        flattened_run(raw).last() == prev,
        has_room(Some(prev), Some(t)),
    ensures
        flattened_run(raw.push(t as nat)) == flattened_run(raw).push(
            flattened(Some(prev), Some(t))->0 as nat,
        ),
        flattened_run(seq![t as nat]) == seq![flattened(None, Some(t))->0 as nat],
{
    lemma_run_len(raw);
    assert(raw.push(t as nat).drop_last() =~= raw);
    assert(seq![t as nat].drop_last() =~= Seq::<nat>::empty());
    reveal_with_fuel(flattened_run, 2);
}

proof fn lemma_run_len(raw: Seq<nat>)
    ensures
        flattened_run(raw).len() == raw.len(),
    decreases raw.len(),
{
    if raw.len() > 0 {
        lemma_run_len(raw.drop_last());
    }
}

/// Timestamps leave in strictly increasing order, and none leaves earlier than it
/// came.
pub proof fn law_flattened_run_increases(raw: Seq<nat>)
    ensures
        flattened_run(raw).len() == raw.len(),
        forall|i: int, j: int|
            0 <= i < j < raw.len() ==> #[trigger] flattened_run(raw)[i]
                < #[trigger] flattened_run(raw)[j],
        forall|i: int| 0 <= i < raw.len() ==> #[trigger] flattened_run(raw)[i] >= raw[i],
    decreases raw.len(),
{
    if raw.len() > 0 {
        let before = flattened_run(raw.drop_last());
        law_flattened_run_increases(raw.drop_last());
        assert forall|i: int, j: int| 0 <= i < j < raw.len() implies #[trigger] flattened_run(
            raw,
        )[i] < #[trigger] flattened_run(raw)[j] by {
            if j == raw.len() - 1 {
                if i < before.len() - 1 {
                    assert(before[i] < before[before.len() - 1]);
                }
            } else {
                assert(before[i] < before[j]);
            }
        }
        assert forall|i: int| 0 <= i < raw.len() implies #[trigger] flattened_run(raw)[i]
            >= raw[i] by {
            if i < raw.len() - 1 {
                assert(before[i] >= raw.drop_last()[i]);
            }
        }
    }
}

/// The publisher's frame rate is right, and only the spacing of two frames
/// collapses now and then: timestamps that are equal or more than a bump apart,
/// never three of them equal.
pub open spec fn collapses_in_pairs(raw: Seq<nat>) -> bool {
    &&& forall|i: int|
        0 <= i < raw.len() - 1 ==> raw[i + 1] == #[trigger] raw[i] || raw[i + 1] > raw[i]
            + FLATTEN_BUMP_NS
    &&& forall|i: int| 0 <= i < raw.len() - 2 ==> raw[i + 2] != #[trigger] raw[i]
}

/// No drift accumulates: where frames only collide in pairs, the second of a pair
/// is moved by one bump, and every other frame keeps its timestamp.
pub proof fn law_pairs_do_not_drift(raw: Seq<nat>)
    requires
        collapses_in_pairs(raw),
    ensures
        flattened_run(raw).len() == raw.len(),
        forall|i: int|
            0 <= i < raw.len() ==> #[trigger] flattened_run(raw)[i] == if i > 0 && raw[i - 1]
                == raw[i] {
                raw[i] + FLATTEN_BUMP_NS
            } else {
                raw[i] as int
            },
    decreases raw.len(),
{
    if raw.len() > 0 {
        let rest = raw.drop_last();
        assert forall|i: int| 0 <= i < rest.len() - 1 implies rest[i + 1] == #[trigger] rest[i]
            || rest[i + 1] > rest[i] + FLATTEN_BUMP_NS by {
            assert(raw[i + 1] == raw[i] || raw[i + 1] > raw[i] + FLATTEN_BUMP_NS);
        }
        assert forall|i: int| 0 <= i < rest.len() - 2 implies rest[i + 2] != #[trigger] rest[i] by {
            assert(raw[i + 2] != raw[i]);
        }
        law_pairs_do_not_drift(rest);
        let before = flattened_run(rest);
        let n = raw.len() - 1;
        if n > 0 {
            assert(raw[n - 1 + 1] == raw[n - 1] || raw[n] > raw[n - 1] + FLATTEN_BUMP_NS);
            assert(before[n - 1] == before.last());
            if n > 1 {
                assert(raw[n - 2 + 2] != raw[n - 2]);
                assert(raw[n - 2 + 1] == raw[n - 2] || raw[n - 1] > raw[n - 2] + FLATTEN_BUMP_NS);
            }
        }
        assert forall|i: int| 0 <= i < raw.len() implies #[trigger] flattened_run(raw)[i] == if i
            > 0 && raw[i - 1] == raw[i] {
            raw[i] + FLATTEN_BUMP_NS
        } else {
            raw[i] as int
        } by {
            if i < n {
                assert(before[i] == flattened_run(raw)[i]);
            }
        }
    }
}

/// A time in nanoseconds in ticks of the transport stream's 90 kHz clock, rounded
/// down.
pub open spec fn ticks(ns: nat) -> nat {
    ns * 9 / 100_000
}

/// A moved timestamp is later on the transport stream's clock too, by ninety
/// ticks; one that was not moved is later on it exactly if it came so.
pub proof fn law_bump_survives_the_wire_clock(prev: u64, t: u64)
    requires
        has_room(Some(prev), Some(t)),
    ensures
        t <= prev ==> ticks(flattened(Some(prev), Some(t))->0 as nat) == ticks(prev as nat) + 90,
        t > prev ==> flattened(Some(prev), Some(t)) == Some(t),
        (ticks(flattened(Some(prev), Some(t))->0 as nat) > ticks(prev as nat)) == (t <= prev
            || ticks(t as nat) > ticks(prev as nat)),
{
}

/// Timestamps in whole milliseconds, which is how the publisher's come, leave in
/// whole milliseconds and in strictly increasing order on the transport stream's
/// clock.
pub proof fn law_millisecond_runs_increase_on_the_wire(raw: Seq<nat>)
    requires
        forall|i: int| 0 <= i < raw.len() ==> #[trigger] raw[i] % 1_000_000 == 0,
    ensures
        flattened_run(raw).len() == raw.len(),
        forall|i: int|
            0 <= i < raw.len() ==> #[trigger] flattened_run(raw)[i] % 1_000_000 == 0,
        forall|i: int, j: int|
            0 <= i < j < raw.len() ==> ticks(#[trigger] flattened_run(raw)[i]) < ticks(
                #[trigger] flattened_run(raw)[j],
            ),
{
    law_flattened_run_increases(raw);
    lemma_whole_milliseconds(raw);
    assert forall|i: int, j: int| 0 <= i < j < raw.len() implies ticks(
        #[trigger] flattened_run(raw)[i],
    ) < ticks(#[trigger] flattened_run(raw)[j]) by {
        let a = flattened_run(raw)[i];
        let b = flattened_run(raw)[j];
        assert(a < b && a % 1_000_000 == 0 && b % 1_000_000 == 0);
        assert(b >= a + 1_000_000);
    }
}

proof fn lemma_whole_milliseconds(raw: Seq<nat>)
    requires
        forall|i: int| 0 <= i < raw.len() ==> #[trigger] raw[i] % 1_000_000 == 0,
    ensures
        flattened_run(raw).len() == raw.len(),
        forall|i: int|
            0 <= i < raw.len() ==> #[trigger] flattened_run(raw)[i] % 1_000_000 == 0,
    decreases raw.len(),
{
    if raw.len() > 0 {
        let rest = raw.drop_last();
        assert forall|i: int| 0 <= i < rest.len() implies #[trigger] rest[i] % 1_000_000 == 0 by {
            assert(raw[i] % 1_000_000 == 0);
        }
        lemma_whole_milliseconds(rest);
        let before = flattened_run(rest);
        assert(raw[raw.len() - 1] % 1_000_000 == 0);
        if before.len() > 0 {
            assert(before[before.len() - 1] % 1_000_000 == 0);
        }
        assert forall|i: int| 0 <= i < raw.len() implies #[trigger] flattened_run(raw)[i]
            % 1_000_000 == 0 by {
            if i < raw.len() - 1 {
                assert(before[i] % 1_000_000 == 0);
            }
        }
    }
}

/// A timestamp is moved only where it comes no later than the one before, and then to
/// one millisecond past it. The next one is compared with what this buffer left with,
/// and a buffer without a timestamp changes nothing.
pub proof fn law_only_collisions_move(prev: Option<u64>, t: Option<u64>)
    requires
        prev matches Some(p) ==> p < 0xFFFF_FFFF_FFF0_BDBF,
    ensures
        prev is None ==> flattened(prev, t) == t,
        t is None ==> flattened(prev, t) is None && latest(prev, t) == prev,
        prev matches Some(p) ==> (t matches Some(v) ==> {
            &&& v > p ==> flattened(prev, t) == Some(v)
            &&& v <= p ==> flattened(prev, t) is Some && flattened(prev, t)->0 == p + 1_000_000
        }),
        t is Some ==> latest(prev, t) == flattened(prev, t),
        has_room(prev, t),
{
}

} // verus!
