//! The structure of AMF0 values, the format of RTMP's command and data messages: how
//! many values some bytes hold, and how deeply they nest.

use vstd::prelude::*;

verus! {

/// The nesting of objects and arrays that is taken. The session reads nested values by
/// recursion, so that its stack limits it.
pub const MAX_NESTING: usize = 128;

pub const NUMBER_MARKER: u8 = 0;

pub const BOOLEAN_MARKER: u8 = 1;

pub const STRING_MARKER: u8 = 2;

pub const OBJECT_MARKER: u8 = 3;

pub const NULL_MARKER: u8 = 5;

pub const UNDEFINED_MARKER: u8 = 6;

pub const ECMA_ARRAY_MARKER: u8 = 8;

pub const OBJECT_END_MARKER: u8 = 9;

pub const STRICT_ARRAY_MARKER: u8 = 10;

/// A value that has begun and not ended.
#[derive(Debug, Clone, Copy, PartialEq, Eq, Structural)]
pub enum Frame {
    /// An object, or an array with names: it ends at an empty name.
    Object,
    /// An array of so many more values.
    Array { left: u32 },
}

/// What stands where a value is read.
#[derive(Debug, Clone, Copy, PartialEq, Eq, Structural)]
pub enum Head {
    /// A value that holds no others; what follows it stands at `end`.
    Plain { end: usize },
    /// The beginning of one that does; its content stands at `end`.
    Opens { frame: Frame, end: usize },
    /// No value: the end of the bytes, or an end marker.
    Nothing { end: usize },
    /// Not AMF0.
    Broken,
}

/// What stands where the name of a property is read.
#[derive(Debug, Clone, Copy, PartialEq, Eq, Structural)]
pub enum Label {
    /// A name; its value stands at `end`.
    Named { end: usize },
    /// The end of the object; what follows it stands at `end`.
    Closed { end: usize },
    /// Neither.
    Broken,
}

/// What some bytes hold.
#[derive(Debug, Clone, Copy, PartialEq, Eq, Structural)]
pub enum Values {
    /// So many values, one after the other.
    Count(usize),
    /// Something that is not AMF0.
    Broken,
    /// Values that nest too deeply, before anything that is not AMF0.
    TooDeep,
}

/// The 16-bit number at `p`.
pub open spec fn be16(data: Seq<u8>, p: int) -> int {
    data[p] * 256 + data[p + 1]
}

/// The 32-bit number at `p`.
pub open spec fn be32(data: Seq<u8>, p: int) -> int {
    ((data[p] * 256 + data[p + 1]) * 256 + data[p + 2]) * 256 + data[p + 3]
}

/// The position after `n` more bytes, or the end where there are fewer.
pub open spec fn no_further(data: Seq<u8>, p: int, n: int) -> int {
    if p + n <= data.len() {
        p + n
    } else {
        data.len() as int
    }
}

/// What stands at `p`, where a value is read. Text that is cut short counts as text.
pub open spec fn head(data: Seq<u8>, p: int) -> Head {
    if p >= data.len() {
        Head::Nothing { end: p as usize }
    } else if data[p] == OBJECT_END_MARKER {
        Head::Nothing { end: (p + 1) as usize }
    } else if data[p] == NULL_MARKER || data[p] == UNDEFINED_MARKER {
        Head::Plain { end: (p + 1) as usize }
    } else if data[p] == BOOLEAN_MARKER && p + 2 <= data.len() {
        Head::Plain { end: (p + 2) as usize }
    } else if data[p] == NUMBER_MARKER && p + 9 <= data.len() {
        Head::Plain { end: (p + 9) as usize }
    } else if data[p] == STRING_MARKER && p + 3 <= data.len() {
        Head::Plain { end: no_further(data, p + 3, be16(data, p + 1)) as usize }
    } else if data[p] == OBJECT_MARKER {
        Head::Opens { frame: Frame::Object, end: (p + 1) as usize }
    } else if data[p] == ECMA_ARRAY_MARKER && p + 5 <= data.len() {
        Head::Opens { frame: Frame::Object, end: (p + 5) as usize }
    } else if data[p] == STRICT_ARRAY_MARKER && p + 5 <= data.len() {
        Head::Opens {
            frame: Frame::Array { left: be32(data, p + 1) as u32 },
            end: (p + 5) as usize,
        }
    } else {
        Head::Broken
    }
}

/// What stands at `p`, where the name of a property is read.
pub open spec fn label(data: Seq<u8>, p: int) -> Label {
    if p + 2 > data.len() {
        Label::Broken
    } else if be16(data, p) > 0 {
        Label::Named { end: no_further(data, p + 2, be16(data, p)) as usize }
    } else if p + 3 <= data.len() && data[p + 2] == OBJECT_END_MARKER {
        Label::Closed { end: (p + 3) as usize }
    } else {
        Label::Broken
    }
}

/// How far reading has come: the position, the values that have begun and not ended,
/// and the number of values that have ended and stand in no other.
pub struct Place {
    pub p: int,
    pub open: Seq<Frame>,
    pub values: int,
}

/// A value has ended at `p`.
pub open spec fn ended(open: Seq<Frame>, values: int, p: int) -> Place {
    if open.len() == 0 {
        Place { p, open, values: values + 1 }
    } else {
        match open.last() {
            Frame::Object => Place { p, open, values },
            Frame::Array { left } => Place {
                p,
                open: open.drop_last().push(Frame::Array { left: (left - 1) as u32 }),
                values,
            },
        }
    }
}

/// Where reading goes from one place, or what the bytes hold.
pub enum Step {
    Next(Place),
    Done(Values),
}

/// A value whose head stands at the place has been met.
pub open spec fn entered(data: Seq<u8>, at: Place, h: Head) -> Step {
    match h {
        Head::Plain { end } => Step::Next(ended(at.open, at.values, end as int)),
        Head::Opens { frame, end } => if at.open.len() >= MAX_NESTING {
            Step::Done(Values::TooDeep)
        } else {
            Step::Next(Place { p: end as int, open: at.open.push(frame), values: at.values })
        },
        Head::Nothing { .. } | Head::Broken => Step::Done(Values::Broken),
    }
}

/// One step of reading.
pub open spec fn step(data: Seq<u8>, at: Place) -> Step {
    if at.open.len() == 0 {
        match head(data, at.p) {
            Head::Nothing { .. } => Step::Done(Values::Count(at.values as usize)),
            h => entered(data, at, h),
        }
    } else {
        match at.open.last() {
            Frame::Object => match label(data, at.p) {
                Label::Named { end } => entered(data, at, head(data, end as int)),
                Label::Closed { end } => Step::Next(
                    ended(at.open.drop_last(), at.values, end as int),
                ),
                Label::Broken => Step::Done(Values::Broken),
            },
            Frame::Array { left } => if left == 0 {
                Step::Next(ended(at.open.drop_last(), at.values, at.p))
            } else {
                match head(data, at.p) {
                    Head::Nothing { end } => Step::Next(
                        ended(at.open.drop_last(), at.values, end as int),
                    ),
                    h => entered(data, at, h),
                }
            },
        }
    }
}

/// What the bytes hold, read on from a place.
pub open spec fn values_from(data: Seq<u8>, at: Place) -> Values
    decreases data.len() - at.p, at.open.len(),
    when 0 <= at.p <= data.len() <= usize::MAX
{
    match step(data, at) {
        Step::Done(v) => v,
        Step::Next(next) => values_from(data, next),
    }
}

/// What the bytes hold.
pub open spec fn values(data: Seq<u8>) -> Values {
    values_from(data, Place { p: 0, open: Seq::empty(), values: 0 })
}

fn read16(data: &[u8], p: usize) -> (n: usize)
    requires
        p + 2 <= data@.len(),
    ensures
        n == be16(data@, p as int),
        n <= 0xFFFF,
{
    data[p] as usize * 256 + data[p + 1] as usize
}

/// The 32-bit number at `p`.
pub fn read32(data: &[u8], p: usize) -> (n: u32)
    requires
        p + 4 <= data@.len(),
    ensures
        n == be32(data@, p as int),
{
    ((data[p] as u32 * 256 + data[p + 1] as u32) * 256 + data[p + 2] as u32) * 256
        + data[p + 3] as u32
}

fn skip_up_to(data: &[u8], p: usize, n: usize) -> (end: usize)
    requires
        p <= data@.len(),
    ensures
        end == no_further(data@, p as int, n as int),
        end <= data@.len(),
{
    if n <= data.len() - p {
        p + n
    } else {
        data.len()
    }
}

fn head_at(data: &[u8], p: usize) -> (h: Head)
    requires
        p <= data@.len(),
    ensures
        h == head(data@, p as int),
{
    let left: usize = data.len() - p;
    if left == 0 {
        return Head::Nothing { end: p };
    }
    let marker = data[p];
    if marker == OBJECT_END_MARKER {
        Head::Nothing { end: p + 1 }
    } else if marker == NULL_MARKER || marker == UNDEFINED_MARKER {
        Head::Plain { end: p + 1 }
    } else if marker == BOOLEAN_MARKER && left >= 2 {
        Head::Plain { end: p + 2 }
    } else if marker == NUMBER_MARKER && left >= 9 {
        Head::Plain { end: p + 9 }
    } else if marker == STRING_MARKER && left >= 3 {
        Head::Plain { end: skip_up_to(data, p + 3, read16(data, p + 1)) }
    } else if marker == OBJECT_MARKER {
        Head::Opens { frame: Frame::Object, end: p + 1 }
    } else if marker == ECMA_ARRAY_MARKER && left >= 5 {
        Head::Opens { frame: Frame::Object, end: p + 5 }
    } else if marker == STRICT_ARRAY_MARKER && left >= 5 {
        Head::Opens { frame: Frame::Array { left: read32(data, p + 1) }, end: p + 5 }
    } else {
        Head::Broken
    }
}

fn label_at(data: &[u8], p: usize) -> (l: Label)
    requires
        p <= data@.len(),
    ensures
        l == label(data@, p as int),
{
    let left: usize = data.len() - p;
    if left < 2 {
        return Label::Broken;
    }
    let n: usize = read16(data, p);
    if n > 0 {
        Label::Named { end: skip_up_to(data, p + 2, n) }
    } else if left >= 3 && data[p + 2] == OBJECT_END_MARKER {
        Label::Closed { end: p + 3 }
    } else {
        Label::Broken
    }
}

/// Notes that a value has ended.
fn end_value(open: &mut Vec<Frame>, values: usize) -> (r: usize)
    requires
        values < usize::MAX,
        old(open)@.len() > 0 ==> (old(open)@.last() matches Frame::Array { left } ==> left > 0),
    ensures
        forall|p: int|
            #[trigger] ended(old(open)@, values as int, p) == (Place {
                p,
                open: final(open)@,
                values: r as int,
            }),
        r <= values + 1,
{
    let n: usize = open.len();
    if n == 0 {
        return values + 1;
    }
    if let Frame::Array { left } = open[n - 1] {
        let fewer = Frame::Array { left: left - 1 };
        open.pop();
        open.push(fewer);
    }
    values
}

/// Every array that holds a value that has begun has room for it.
spec fn roomy(open: Seq<Frame>) -> bool {
    forall|i: int|
        0 <= i < open.len() - 1 ==> (#[trigger] open[i] matches Frame::Array { left } ==> left > 0)
}

/// Says what some bytes hold.
pub fn count_values(data: &[u8]) -> (v: Values)
    ensures
        v == values(data@),
{
    let mut p: usize = 0;
    let mut open: Vec<Frame> = Vec::new();
    let mut count: usize = 0;
    assert(data@.len() == data.len());
    loop
        invariant
            data@.len() <= usize::MAX,
            p <= data@.len(),
            roomy(open@),
            open@.len() <= MAX_NESTING,
            count <= p,
            open@.len() > 0 ==> count < p,
            values(data@) == values_from(
                data@,
                Place { p: p as int, open: open@, values: count as int },
            ),
        decreases data@.len() - p, open@.len(),
    {
        let ghost at = Place { p: p as int, open: open@, values: count as int };
        let depth: usize = open.len();
        let mut from: usize = p;
        let mut closed: Option<usize> = None;
        if depth > 0 {
            match open[depth - 1] {
                Frame::Object => match label_at(data, p) {
                    Label::Named { end } => {
                        from = end;
                    },
                    Label::Closed { end } => {
                        closed = Some(end);
                    },
                    Label::Broken => {
                        return Values::Broken;
                    },
                },
                Frame::Array { left } => {
                    if left == 0 {
                        closed = Some(p);
                    } else if let Head::Nothing { end } = head_at(data, p) {
                        closed = Some(end);
                    }
                },
            }
        }
        if let Some(end) = closed {
            open.pop();
            assert(open@ =~= at.open.drop_last());
            assert(step(data@, at) == Step::Next(ended(open@, at.values, end as int)));
            count = end_value(&mut open, count);
            p = end;
            continue;
        }
        match head_at(data, from) {
            Head::Plain { end } => {
                assert(step(data@, at) == Step::Next(ended(at.open, at.values, end as int)));
                count = end_value(&mut open, count);
                p = end;
            },
            Head::Opens { frame, end } => {
                if depth >= MAX_NESTING {
                    return Values::TooDeep;
                }
                open.push(frame);
                p = end;
            },
            Head::Nothing { .. } => {
                return if depth == 0 {
                    Values::Count(count)
                } else {
                    Values::Broken
                };
            },
            Head::Broken => {
                return Values::Broken;
            },
        }
    }
}

// ── laws ────────────────────────────────────────────────────────────────────

/// The place after a value that stands in no other and ends at `p`.
pub open spec fn one_more(p: int, values: int) -> Place {
    Place { p, open: Seq::empty(), values: values + 1 }
}

/// Values that stand in no other are counted one by one: nulls and undefined values of
/// one byte, booleans of two, numbers of nine, and text with its length before it.
/// Counting ends with the bytes, or at an end marker.
pub proof fn law_values_are_counted(data: Seq<u8>, p: int, values: int)
    requires
        0 <= p <= data.len(),
        data.len() <= 0xFFFF_FFFF,
        0 <= values < 0xFFFF_FFFF,
    ensures
        ({
            let left = data.len() - p;
            let now = values_from(data, Place { p, open: Seq::empty(), values });
            &&& left == 0 || data[p] == 9 ==> (now matches Values::Count(n) && n == values)
            &&& left > 0 && (data[p] == 5 || data[p] == 6) ==> now == values_from(
                data,
                one_more(p + 1, values),
            )
            &&& left >= 2 && data[p] == 1 ==> now == values_from(data, one_more(p + 2, values))
            &&& left >= 9 && data[p] == 0 ==> now == values_from(data, one_more(p + 9, values))
            &&& left >= 3 && data[p] == 2 && left >= 3 + data[p + 1] * 0x100 + data[p + 2]
                ==> now == values_from(
                data,
                one_more(p + 3 + data[p + 1] * 0x100 + data[p + 2], values),
            )
            &&& left >= 3 && data[p] == 2 && left < 3 + data[p + 1] * 0x100 + data[p + 2] ==> (
            now matches Values::Count(n) && n == values + 1)
        }),
{
    reveal_with_fuel(values_from, 2);
}

/// What is not AMF0: a marker of another type, and a value that is cut short, text
/// apart.
pub proof fn law_what_is_broken(data: Seq<u8>, p: int, values: int)
    requires
        0 <= p < data.len(),
        data.len() <= 0xFFFF_FFFF,
        0 <= values,
    ensures
        ({
            let left = data.len() - p;
            let short = (data[p] == 1 && left < 2) || (data[p] == 0 && left < 9) || (data[p] == 2
                && left < 3) || (data[p] == 8 && left < 5) || (data[p] == 10 && left < 5);
            let other = data[p] == 4 || data[p] == 7 || data[p] > 10;
            short || other ==> values_from(data, Place { p, open: Seq::empty(), values })
                == Values::Broken
        }),
{
}

/// An object begins with its marker; an array with names has four bytes after it, and
/// an array without has its length there. Whatever begins within fewer than 128 others
/// is read on inside; within 128, it nests too deeply.
pub proof fn law_nesting_is_limited(data: Seq<u8>, at: Place)
    requires
        0 <= at.p < data.len(),
        data.len() <= 0xFFFF_FFFF,
        at.open.len() == 0 || (at.open.last() matches Frame::Array { left } && left > 0),
    ensures
        ({
            let left = data.len() - at.p;
            let now = values_from(data, at);
            let within = |frame: Frame, p: int|
                values_from(data, Place { p, open: at.open.push(frame), values: at.values });
            let p = at.p;
            let count = ((data[p + 1] * 0x100 + data[p + 2]) * 0x100 + data[p + 3]) * 0x100
                + data[p + 4];
            &&& at.open.len() < 128 && data[p] == 3 ==> now == within(Frame::Object, p + 1)
            &&& at.open.len() < 128 && data[p] == 8 && left >= 5 ==> now == within(
                Frame::Object,
                p + 5,
            )
            &&& at.open.len() < 128 && data[p] == 10 && left >= 5 ==> now == within(
                Frame::Array { left: count as u32 },
                p + 5,
            )
            &&& at.open.len() >= 128 && (data[p] == 3 || (left >= 5 && (data[p] == 8 || data[p]
                == 10))) ==> now == Values::TooDeep
        }),
{
}

/// In an object, a name and its value are passed over and not counted, and an empty name
/// with an end marker ends it. Bytes that end at a name, or an end marker in place of a
/// value, are not AMF0.
pub proof fn law_objects_count_once(data: Seq<u8>, p: int, outer: Seq<Frame>, values: int)
    requires
        0 <= p,
        p + 3 <= data.len(),
        data.len() <= 0xFFFF_FFFF,
        0 <= values,
    ensures
        ({
            let open = outer.push(Frame::Object);
            let inside = |n: int| values_from(data, Place { p: n, open, values });
            let now = inside(p);
            let name = data[p] * 0x100 + data[p + 1];
            let at = p + 2 + name;
            let more = data.len() - at;
            &&& name == 0 && data[p + 2] == 9 ==> now == values_from(
                data,
                back_in(outer, p + 3, values),
            )
            &&& name == 0 && data[p + 2] != 9 ==> now == Values::Broken
            &&& name > 0 && (more <= 0 || data[at] == 9) ==> now == Values::Broken
            &&& name > 0 && more > 0 && (data[at] == 5 || data[at] == 6) ==> now == inside(at + 1)
            &&& name > 0 && more >= 2 && data[at] == 1 ==> now == inside(at + 2)
            &&& name > 0 && more >= 9 && data[at] == 0 ==> now == inside(at + 9)
            &&& name > 0 && more >= 3 && data[at] == 2 && more >= 3 + data[at + 1] * 0x100 + data[at
                + 2] ==> now == inside(at + 3 + data[at + 1] * 0x100 + data[at + 2])
            &&& name > 0 && more > 0 && data[at] == 3 && outer.len() < 127 ==> now == values_from(
                data,
                Place { p: at + 1, open: open.push(Frame::Object), values },
            )
            &&& name > 0 && more > 0 && data[at] == 3 && outer.len() >= 127 ==> now
                == Values::TooDeep
        }),
{
    assert(outer.push(Frame::Object).drop_last() =~= outer);
    lemma_back_in(outer, p + 3, values);
}

/// The place after a value that began within `outer` and has ended at `p`: one that
/// stands in no other counts, and one in an array leaves one less to come.
pub open spec fn back_in(outer: Seq<Frame>, p: int, values: int) -> Place {
    if outer.len() == 0 {
        Place { p, open: outer, values: values + 1 }
    } else {
        match outer.last() {
            Frame::Object => Place { p, open: outer, values },
            Frame::Array { left } => Place {
                p,
                open: outer.update(
                    outer.len() - 1,
                    Frame::Array { left: (left - 1) as u32 },
                ),
                values,
            },
        }
    }
}

/// An array is over after as many values as it says, or earlier at an end marker or with
/// the bytes. Each value in it is passed over as it would be outside, and counts down.
pub proof fn law_arrays_count_down(
    data: Seq<u8>,
    p: int,
    outer: Seq<Frame>,
    left: u32,
    values: int,
)
    requires
        0 <= p <= data.len(),
        data.len() <= 0xFFFF_FFFF,
    ensures
        ({
            let inside = |n: int|
                Place { p: n, open: outer.push(Frame::Array { left: (left - 1) as u32 }), values };
            let now = values_from(
                data,
                Place { p, open: outer.push(Frame::Array { left }), values },
            );
            let more = data.len() - p;
            &&& left == 0 || more == 0 ==> now == values_from(data, back_in(outer, p, values))
            &&& left > 0 && more > 0 && data[p] == 9 ==> now == values_from(
                data,
                back_in(outer, p + 1, values),
            )
            &&& left > 0 && more > 0 && (data[p] == 5 || data[p] == 6) ==> now == values_from(
                data,
                inside(p + 1),
            )
            &&& left > 0 && more >= 2 && data[p] == 1 ==> now == values_from(data, inside(p + 2))
            &&& left > 0 && more >= 9 && data[p] == 0 ==> now == values_from(data, inside(p + 9))
            &&& left > 0 && more >= 3 && data[p] == 2 && more >= 3 + data[p + 1] * 0x100 + data[p
                + 2] ==> now == values_from(
                data,
                inside(p + 3 + data[p + 1] * 0x100 + data[p + 2]),
            )
        }),
{
    let frames = outer.push(Frame::Array { left });
    assert(frames.drop_last() =~= outer);
    lemma_back_in(outer, p, values);
    lemma_back_in(outer, p + 1, values);
}

proof fn lemma_back_in(outer: Seq<Frame>, p: int, values: int)
    ensures
        ended(outer, values, p) == back_in(outer, p, values),
{
    if outer.len() > 0 {
        if let Frame::Array { left } = outer.last() {
            let less = Frame::Array { left: (left - 1) as u32 };
            assert(outer.drop_last().push(less) =~= outer.update(outer.len() - 1, less));
        }
    }
}

} // verus!
