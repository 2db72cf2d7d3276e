//! The RTMP chunk stream, read ahead of the session.
//!
//! The session reads the same bytes, but does not survive all of them. What follows
//! here is as much of the format as it takes to tell: chunk headers, the messages that
//! the chunks make up, and the two messages that bear on how the rest is read.

use std::collections::{HashMap, HashSet};
use vstd::prelude::*;

use crate::amf0;
use crate::amf0::Values;

verus! {

/// The largest number of a message's bytes in a chunk, until the client names another.
pub const FIRST_CHUNK_SIZE: u32 = 128;

/// The largest chunk size that can be named.
pub const MAX_CHUNK_SIZE: u32 = 0x7FFF_FFFF;

/// In a time field: the time stands in four more bytes.
pub const EXTENDED: u32 = 0xFF_FFFF;

/// The largest number of requests that a session can number.
pub const MAX_REQUESTS: u32 = 0xFFFF_FFFF;

/// The largest number of message streams that a session can number.
pub const MAX_STREAMS: u32 = 0xFFFF_FFFE;

pub const SET_CHUNK_SIZE: u8 = 1;

pub const WINDOW_ACK_SIZE: u8 = 5;

/// Data, and data that is marked as AMF3 and is AMF0.
pub const DATA: u8 = 18;

pub const DATA_MARKED_AMF3: u8 = 15;

/// A command, and a command that is marked as AMF3 and is AMF0.
pub const COMMAND: u8 = 20;

pub const COMMAND_MARKED_AMF3: u8 = 17;

/// What later chunks of a chunk stream take over from its last one.
#[derive(Debug, Clone, Copy, PartialEq, Eq, Structural)]
pub struct ChunkHeader {
    /// The time field: a time or a time difference, or [`EXTENDED`].
    pub time: u32,
    /// The length of the message.
    pub length: u32,
    /// The type of the message.
    pub kind: u8,
    /// The message stream of the message.
    pub message_stream: u32,
}

/// What the reader knows between chunks.
pub struct Link {
    /// The largest number of a message's bytes in a chunk.
    pub chunk_size: nat,
    /// The last header of each chunk stream.
    pub headers: Map<u32, ChunkHeader>,
    /// The part of a message that has come.
    pub payload: Seq<u8>,
    /// The commands that have come and ask for something: to connect, to publish or to
    /// play.
    pub requests: nat,
    /// The commands that have come and create a message stream.
    pub streams: nat,
    /// The message streams on which the client has asked to publish.
    pub published: Set<u32>,
    /// How often the client wants its bytes acknowledged.
    pub ack_size: Option<u32>,
}

/// Before anything has come.
pub open spec fn new_link() -> Link {
    Link {
        chunk_size: FIRST_CHUNK_SIZE as nat,
        headers: Map::empty(),
        payload: Seq::empty(),
        requests: 0,
        streams: 0,
        published: Set::empty(),
        ack_size: None,
    }
}

// ── chunks ──────────────────────────────────────────────────────────────────

/// The beginning of a chunk: the format of its header, the chunk stream, and the bytes
/// that these take.
#[derive(Debug, Clone, Copy, PartialEq, Eq, Structural)]
pub struct Basic {
    pub format: u8,
    pub stream: u32,
    pub len: usize,
}

/// The beginning of the chunk that `buf` begins with, once it is there.
pub open spec fn basic(buf: Seq<u8>) -> Option<Basic> {
    if buf.len() < 1 {
        None
    } else if buf[0] % 64 == 0 {
        if buf.len() < 2 {
            None
        } else {
            Some(Basic { format: buf[0] / 64, stream: (buf[1] + 64) as u32, len: 2 })
        }
    } else if buf[0] % 64 == 1 {
        if buf.len() < 3 {
            None
        } else {
            Some(
                Basic {
                    format: buf[0] / 64,
                    stream: (buf[2] * 256 + buf[1] + 64) as u32,
                    len: 3,
                },
            )
        }
    } else {
        Some(Basic { format: buf[0] / 64, stream: (buf[0] % 64) as u32, len: 1 })
    }
}

/// The bytes of a header of this format, after its beginning and without an extended
/// time: time, length, type and message stream; all but the message stream; the time;
/// or nothing.
pub open spec fn header_len(format: u8) -> int {
    if format == 0 {
        11
    } else if format == 1 {
        7
    } else if format == 2 {
        3
    } else {
        0
    }
}

/// The 24-bit number at `p`.
pub open spec fn be24(buf: Seq<u8>, p: int) -> int {
    (buf[p] * 256 + buf[p + 1]) * 256 + buf[p + 2]
}

/// The 32-bit number at `p`, its lowest byte first.
pub open spec fn le32(buf: Seq<u8>, p: int) -> int {
    ((buf[p + 3] * 256 + buf[p + 2]) * 256 + buf[p + 1]) * 256 + buf[p]
}

/// The header of this format that stands at `p`, where the one before it on the same
/// chunk stream is `last`.
pub open spec fn header_at(buf: Seq<u8>, p: int, format: u8, last: ChunkHeader) -> ChunkHeader {
    ChunkHeader {
        time: if format <= 2 {
            be24(buf, p) as u32
        } else {
            last.time
        },
        length: if format <= 1 {
            be24(buf, p + 3) as u32
        } else {
            last.length
        },
        kind: if format <= 1 {
            buf[p + 6]
        } else {
            last.kind
        },
        message_stream: if format == 0 {
            le32(buf, p + 7) as u32
        } else {
            last.message_stream
        },
    }
}

/// The bytes of the message in a chunk.
pub open spec fn piece_len(link: Link, length: nat) -> int {
    if length <= link.chunk_size {
        length as int
    } else if length - link.payload.len() <= link.chunk_size {
        length - link.payload.len()
    } else {
        link.chunk_size as int
    }
}

/// What `buf` begins with.
pub enum Chunk {
    /// A part of a chunk, as far as can be told.
    Partial,
    /// A chunk that continues no other, which the session refuses.
    Refused,
    /// A chunk that the session does not survive.
    Faulty,
    /// A chunk, with the place of its bytes of the message.
    Whole { stream: u32, header: ChunkHeader, from: int, end: int },
}

/// What `buf` begins with. The session does not survive a time difference that is
/// extended and need not be, at the beginning of a message, or a message that is
/// announced to be shorter than what has come of it.
pub open spec fn chunk(link: Link, buf: Seq<u8>) -> Chunk {
    match basic(buf) {
        None => Chunk::Partial,
        Some(b) => if b.format != 0 && !link.headers.contains_key(b.stream) {
            Chunk::Refused
        } else if buf.len() < b.len + header_len(b.format) {
            Chunk::Partial
        } else {
            let at = b.len + header_len(b.format);
            let header = header_at(buf, b.len as int, b.format, link.headers[b.stream]);
            if header.time >= EXTENDED && buf.len() < at + 4 {
                Chunk::Partial
            } else if header.time >= EXTENDED && b.format != 0 && link.payload.len() == 0
                && amf0::be32(buf, at) < EXTENDED {
                Chunk::Faulty
            } else if header.length < link.payload.len() {
                Chunk::Faulty
            } else {
                let from = if header.time >= EXTENDED {
                    at + 4
                } else {
                    at
                };
                let end = from + piece_len(link, header.length as nat);
                if buf.len() < end {
                    Chunk::Partial
                } else {
                    Chunk::Whole { stream: b.stream, header, from, end }
                }
            }
        },
    }
}

// ── messages ────────────────────────────────────────────────────────────────

/// What comes of bytes.
pub enum Outcome {
    /// The reader goes on, with bytes of a chunk that is not complete.
    Reads(Link, Seq<u8>),
    /// The session refuses them.
    Refused,
    /// The session does not survive them.
    Faulty,
}

/// The text `@setDataFrame` as an AMF0 value.
pub open spec fn set_data_frame() -> Seq<u8> {
    seq![
        2u8, 0, 13, 0x40, 0x73, 0x65, 0x74, 0x44, 0x61, 0x74, 0x61, 0x46, 0x72, 0x61, 0x6D, 0x65,
    ]
}

/// The text `onMetaData` as an AMF0 value.
pub open spec fn on_meta_data() -> Seq<u8> {
    seq![2u8, 0, 10, 0x6F, 0x6E, 0x4D, 0x65, 0x74, 0x61, 0x44, 0x61, 0x74, 0x61]
}

/// `data` begins with `prefix`.
pub open spec fn begins(data: Seq<u8>, prefix: Seq<u8>) -> bool {
    prefix.len() <= data.len() && data.take(prefix.len() as int) == prefix
}

/// A data frame that holds no data: nothing after its marker, or, where the client has
/// asked to publish on its message stream, nothing after the name of the metadata.
pub open spec fn is_empty_frame(data: Seq<u8>, values: usize, asked: bool) -> bool {
    ||| values == 1 && begins(data, set_data_frame())
    ||| asked && values == 2 && begins(data, set_data_frame() + on_meta_data())
}

/// The names of commands as AMF0 values.
pub open spec fn connect_name() -> Seq<u8> {
    seq![2u8, 0, 7, 0x63, 0x6F, 0x6E, 0x6E, 0x65, 0x63, 0x74]
}

pub open spec fn publish_name() -> Seq<u8> {
    seq![2u8, 0, 7, 0x70, 0x75, 0x62, 0x6C, 0x69, 0x73, 0x68]
}

pub open spec fn play_name() -> Seq<u8> {
    seq![2u8, 0, 4, 0x70, 0x6C, 0x61, 0x79]
}

pub open spec fn create_stream_name() -> Seq<u8> {
    seq![2u8, 0, 12, 0x63, 0x72, 0x65, 0x61, 0x74, 0x65, 0x53, 0x74, 0x72, 0x65, 0x61, 0x6D]
}

/// What comes of a command of three values or more.
pub open spec fn command(link: Link, data: Seq<u8>, message_stream: u32) -> Outcome {
    if begins(data, create_stream_name()) {
        if link.streams >= MAX_STREAMS {
            Outcome::Faulty
        } else {
            Outcome::Reads(Link { streams: link.streams + 1, ..link }, Seq::empty())
        }
    } else if begins(data, connect_name()) || begins(data, publish_name()) || begins(
        data,
        play_name(),
    ) {
        if link.requests >= MAX_REQUESTS {
            Outcome::Faulty
        } else {
            Outcome::Reads(
                Link {
                    requests: link.requests + 1,
                    published: if begins(data, publish_name()) {
                        link.published.insert(message_stream)
                    } else {
                        link.published
                    },
                    ..link
                },
                Seq::empty(),
            )
        }
    } else {
        Outcome::Reads(link, Seq::empty())
    }
}

/// The AMF0 values of a command.
pub open spec fn command_values(kind: u8, data: Seq<u8>) -> Seq<u8> {
    if kind == COMMAND_MARKED_AMF3 && data.len() > 0 && data[0] == 0 {
        data.skip(1)
    } else {
        data
    }
}

/// What comes of a message. The session does not survive AMF0 that nests too deeply, a
/// data frame that holds no data, a command of fewer than three values, and more
/// requests or message streams than it can number.
pub open spec fn message(link: Link, header: ChunkHeader, data: Seq<u8>) -> Outcome {
    let kind = header.kind;
    if kind == SET_CHUNK_SIZE {
        if data.len() < 4 || amf0::be32(data, 0) > MAX_CHUNK_SIZE {
            Outcome::Refused
        } else {
            Outcome::Reads(
                Link { chunk_size: amf0::be32(data, 0) as nat, ..link },
                Seq::empty(),
            )
        }
    } else if kind == WINDOW_ACK_SIZE {
        if data.len() < 4 {
            Outcome::Refused
        } else {
            Outcome::Reads(
                Link { ack_size: Some(amf0::be32(data, 0) as u32), ..link },
                Seq::empty(),
            )
        }
    } else if kind == DATA || kind == DATA_MARKED_AMF3 {
        match amf0::values(data) {
            Values::Broken => Outcome::Refused,
            Values::TooDeep => Outcome::Faulty,
            Values::Count(n) => if is_empty_frame(
                data,
                n,
                link.published.contains(header.message_stream),
            ) {
                Outcome::Faulty
            } else {
                Outcome::Reads(link, Seq::empty())
            },
        }
    } else if kind == COMMAND || kind == COMMAND_MARKED_AMF3 {
        match amf0::values(command_values(kind, data)) {
            Values::Broken => Outcome::Refused,
            Values::TooDeep => Outcome::Faulty,
            Values::Count(n) => if n < 3 {
                Outcome::Faulty
            } else {
                command(link, command_values(kind, data), header.message_stream)
            },
        }
    } else {
        Outcome::Reads(link, Seq::empty())
    }
}

/// What comes of a chunk with these bytes of its message.
pub open spec fn taken(link: Link, stream: u32, header: ChunkHeader, piece: Seq<u8>) -> Outcome {
    let payload = link.payload + piece;
    let headers = link.headers.insert(stream, header);
    if payload.len() == header.length {
        message(Link { headers, payload: Seq::empty(), ..link }, header, payload)
    } else {
        Outcome::Reads(Link { headers, payload, ..link }, Seq::empty())
    }
}

/// What comes of the chunks in `buf`.
pub open spec fn read(link: Link, buf: Seq<u8>) -> Outcome
    decreases buf.len(),
{
    match chunk(link, buf) {
        Chunk::Partial => Outcome::Reads(link, buf),
        Chunk::Refused => Outcome::Refused,
        Chunk::Faulty => Outcome::Faulty,
        Chunk::Whole { stream, header, from, end } => match taken(
            link,
            stream,
            header,
            buf.subrange(from, end),
        ) {
            Outcome::Reads(next, _) => read(next, buf.skip(end)),
            other => other,
        },
    }
}

/// What comes of all the bytes of a connection.
pub open spec fn read_all(input: Seq<u8>) -> Outcome {
    read(new_link(), input)
}

/// What comes of chunks, one chunk on.
proof fn lemma_read(link: Link, buf: Seq<u8>)
    ensures
        read(link, buf) == match chunk(link, buf) {
            Chunk::Partial => Outcome::Reads(link, buf),
            Chunk::Refused => Outcome::Refused,
            Chunk::Faulty => Outcome::Faulty,
            Chunk::Whole { stream, header, from, end } => match taken(
                link,
                stream,
                header,
                buf.subrange(from, end),
            ) {
                Outcome::Reads(next, _) => read(next, buf.skip(end)),
                other => other,
            },
        },
{
}

/// Once the client has asked for acknowledgements, the bytes that have come since the
/// last one are counted in 32 bits.
pub open spec fn count_fits(input: Seq<u8>, unacked: nat, n: nat) -> bool {
    read_all(input) matches Outcome::Reads(link, _) && link.ack_size is Some ==> unacked + n
        % 0x1_0000_0000 <= u32::MAX
}

/// The bytes that have come since the last acknowledgement, after `n` more: an
/// acknowledgement goes out where they reach what the client has asked for.
pub open spec fn unacked_after(input: Seq<u8>, unacked: nat, n: nat) -> nat {
    match read_all(input) {
        Outcome::Reads(Link { ack_size: Some(size), .. }, _) => if unacked + n % 0x1_0000_0000
            >= size {
            0
        } else {
            unacked + n % 0x1_0000_0000
        },
        _ => unacked,
    }
}

/// A session that has been given `input`, and has counted `unacked` bytes since it last
/// acknowledged some, survives `bytes`.
pub open spec fn admits(input: Seq<u8>, unacked: nat, bytes: Seq<u8>) -> bool {
    &&& !(read_all(input + bytes) is Faulty)
    &&& input.len() + bytes.len() <= u64::MAX
    &&& count_fits(input, unacked, bytes.len())
}

/// Nothing comes of no bytes.
pub proof fn lemma_nothing_read()
    ensures
        read_all(Seq::empty()) == Outcome::Reads(new_link(), Seq::<u8>::empty()),
{
}

proof fn lemma_chunk_is_settled(link: Link, a: Seq<u8>, b: Seq<u8>)
    ensures
        !(chunk(link, a) is Partial) ==> chunk(link, a + b) == chunk(link, a),
{
    let ab = a + b;
    if !(chunk(link, a) is Partial) {
        assert(basic(ab) == basic(a));
        let c = basic(a)->0;
        if c.format == 0 || link.headers.contains_key(c.stream) {
            let last = link.headers[c.stream];
            assert(header_at(ab, c.len as int, c.format, last) == header_at(
                a,
                c.len as int,
                c.format,
                last,
            ));
        }
    }
}

/// Bytes may come in any portions: what comes of them is the same.
pub proof fn law_portions_do_not_matter(link: Link, a: Seq<u8>, b: Seq<u8>)
    ensures
        match read(link, a) {
            Outcome::Reads(next, rest) => read(link, a + b) == read(next, rest + b),
            other => read(link, a + b) == other,
        },
    decreases a.len(),
{
    lemma_chunk_is_settled(link, a, b);
    if let Chunk::Whole { stream, header, from, end } = chunk(link, a) {
        assert((a + b).subrange(from, end) =~= a.subrange(from, end));
        assert((a + b).skip(end) =~= a.skip(end) + b);
        if let Outcome::Reads(next, _) = taken(link, stream, header, a.subrange(from, end)) {
            law_portions_do_not_matter(next, a.skip(end), b);
        }
    }
}

// ── the reader ──────────────────────────────────────────────────────────────

/// What the reader makes of some bytes.
#[derive(Debug, Clone, Copy, PartialEq, Eq, Structural)]
pub enum Verdict {
    /// The session may have them.
    Fine,
    /// The session may have them, and refuses them.
    Refused,
    /// The session does not survive them.
    Faulty,
}

/// Reads the bytes of a connection as they come.
#[derive(Debug)]
pub struct ChunkReader {
    chunk_size: u32,
    headers: HashMap<u32, ChunkHeader>,
    payload: Vec<u8>,
    requests: u32,
    streams: u32,
    published: HashSet<u32>,
    ack_size: Option<u32>,
    /// Bytes of a chunk that is not complete.
    rest: Vec<u8>,
}

/// What a buffer holds at some position; positions count from its beginning.
enum ChunkAt {
    Partial,
    Refused,
    Faulty,
    Whole { stream: u32, header: ChunkHeader, from: usize, end: usize },
}

spec fn chunk_at_view(c: ChunkAt, at: int) -> Chunk {
    match c {
        ChunkAt::Partial => Chunk::Partial,
        ChunkAt::Refused => Chunk::Refused,
        ChunkAt::Faulty => Chunk::Faulty,
        ChunkAt::Whole { stream, header, from, end } => Chunk::Whole {
            stream,
            header,
            from: from - at,
            end: end - at,
        },
    }
}

fn read24(buf: &[u8], p: usize) -> (n: u32)
    requires
        p + 3 <= buf@.len(),
    ensures
        n == be24(buf@, p as int),
        n <= 0xFF_FFFF,
{
    (buf[p] as u32 * 256 + buf[p + 1] as u32) * 256 + buf[p + 2] as u32
}

fn read_le32(buf: &[u8], p: usize) -> (n: u32)
    requires
        p + 4 <= buf@.len(),
    ensures
        n == le32(buf@, p as int),
{
    let lowest: u32 = buf[p] as u32;
    ((buf[p + 3] as u32 * 256 + buf[p + 2] as u32) * 256 + buf[p + 1] as u32) * 256 + lowest
}

fn basic_at(buf: &[u8], at: usize) -> (b: Option<Basic>)
    requires
        at <= buf@.len(),
    ensures
        b == basic(buf@.skip(at as int)),
{
    let left: usize = buf.len() - at;
    if left < 1 {
        return None;
    }
    let format: u8 = buf[at] / 64;
    let low: u8 = buf[at] % 64;
    if low == 0 {
        if left < 2 {
            None
        } else {
            Some(Basic { format, stream: buf[at + 1] as u32 + 64, len: 2 })
        }
    } else if low == 1 {
        if left < 3 {
            None
        } else {
            Some(
                Basic {
                    format,
                    stream: buf[at + 2] as u32 * 256 + buf[at + 1] as u32 + 64,
                    len: 3,
                },
            )
        }
    } else {
        Some(Basic { format, stream: low as u32, len: 1 })
    }
}

fn begins_with(data: &[u8], prefix: &[u8]) -> (yes: bool)
    ensures
        yes == begins(data@, prefix@),
{
    if data.len() < prefix.len() {
        return false;
    }
    let mut i: usize = 0;
    while i < prefix.len()
        invariant
            i <= prefix@.len() <= data@.len(),
            forall|j: int| 0 <= j < i ==> data@[j] == prefix@[j],
        decreases prefix@.len() - i,
    {
        if data[i] != prefix[i] {
            assert(data@.take(prefix@.len() as int)[i as int] != prefix@[i as int]);
            return false;
        }
        i = i + 1;
    }
    assert(data@.take(prefix@.len() as int) =~= prefix@);
    true
}

fn empty_frame(data: &[u8], values: usize, asked: bool) -> (yes: bool)
    ensures
        yes == is_empty_frame(data@, values, asked),
{
    let marker: [u8; 16] = [
        2, 0, 13, 0x40, 0x73, 0x65, 0x74, 0x44, 0x61, 0x74, 0x61, 0x46, 0x72, 0x61, 0x6D, 0x65,
    ];
    let both: [u8; 29] = [
        2, 0, 13, 0x40, 0x73, 0x65, 0x74, 0x44, 0x61, 0x74, 0x61, 0x46, 0x72, 0x61, 0x6D, 0x65, 2,
        0, 10, 0x6F, 0x6E, 0x4D, 0x65, 0x74, 0x61, 0x44, 0x61, 0x74, 0x61,
    ];
    assert(marker@ =~= set_data_frame());
    assert(both@ =~= set_data_frame() + on_meta_data());
    (values == 1 && begins_with(data, &marker)) || (asked && values == 2 && begins_with(
        data,
        &both,
    ))
}

impl ChunkReader {
    /// What the reader knows between chunks.
    pub closed spec fn link(self) -> Link {
        Link {
            chunk_size: self.chunk_size as nat,
            headers: self.headers@,
            payload: self.payload@,
            requests: self.requests as nat,
            streams: self.streams as nat,
            published: self.published@,
            ack_size: self.ack_size,
        }
    }

    /// Bytes of a chunk that is not complete.
    pub closed spec fn rest(self) -> Seq<u8> {
        self.rest@
    }

    /// Before anything has come.
    pub fn new() -> (r: ChunkReader)
        ensures
            r.link() == new_link(),
            r.rest() == Seq::<u8>::empty(),
    {
        broadcast use vstd::std_specs::hash::group_hash_axioms;

        let r = ChunkReader {
            chunk_size: FIRST_CHUNK_SIZE,
            headers: HashMap::new(),
            payload: Vec::new(),
            requests: 0,
            streams: 0,
            published: HashSet::new(),
            ack_size: None,
            rest: Vec::new(),
        };
        assert(r.published@ =~= Set::empty());
        assert(r.headers@ =~= Map::empty());
        r
    }

    /// How often the client wants its bytes acknowledged.
    pub fn ack_size(&self) -> (n: Option<u32>)
        ensures
            n == self.link().ack_size,
    {
        self.ack_size
    }

    fn chunk_at(&self, buf: &[u8], at: usize) -> (c: ChunkAt)
        requires
            at <= buf@.len(),
        ensures
            chunk_at_view(c, at as int) == chunk(self.link(), buf@.skip(at as int)),
            c matches ChunkAt::Whole { from, end, .. } ==> at < end && from <= end <= buf@.len(),
    {
        broadcast use vstd::std_specs::hash::group_hash_axioms;

        let ghost tail = buf@.skip(at as int);
        let b = match basic_at(buf, at) {
            None => {
                return ChunkAt::Partial;
            },
            Some(b) => b,
        };
        let mut header = ChunkHeader { time: 0, length: 0, kind: 0, message_stream: 0 };
        if b.format != 0 {
            match self.headers.get(&b.stream) {
                None => {
                    return ChunkAt::Refused;
                },
                Some(last) => {
                    header = *last;
                },
            }
        }
        let fields: usize = if b.format == 0 {
            11
        } else if b.format == 1 {
            7
        } else if b.format == 2 {
            3
        } else {
            0
        };
        let left: usize = buf.len() - at;
        if left < b.len + fields {
            return ChunkAt::Partial;
        }
        let p: usize = at + b.len;
        if b.format <= 2 {
            header.time = read24(buf, p);
        }
        if b.format <= 1 {
            header.length = read24(buf, p + 3);
            header.kind = buf[p + 6];
        }
        if b.format == 0 {
            header.message_stream = read_le32(buf, p + 7);
        }
        assert(header == header_at(
            tail,
            b.len as int,
            b.format,
            self.link().headers[b.stream],
        ));
        let mut from: usize = p + fields;
        if header.time >= EXTENDED {
            if buf.len() - from < 4 {
                return ChunkAt::Partial;
            }
            let time: u32 = amf0::read32(buf, from);
            assert(amf0::be32(tail, from - at) == time);
            if b.format != 0 && self.payload.len() == 0 && time < EXTENDED {
                return ChunkAt::Faulty;
            }
            from = from + 4;
        }
        let length: u64 = header.length as u64;
        let have: u64 = self.payload.len() as u64;
        if length < have {
            return ChunkAt::Faulty;
        }
        let size: u64 = self.chunk_size as u64;
        let piece: u64 = if length <= size {
            length
        } else if length - have <= size {
            length - have
        } else {
            size
        };
        if ((buf.len() - from) as u64) < piece {
            return ChunkAt::Partial;
        }
        ChunkAt::Whole { stream: b.stream, header, from, end: from + piece as usize }
    }

    /// Takes a command of three values or more.
    fn take_command(&mut self, data: &[u8], message_stream: u32) -> (v: Verdict)
        ensures
            match command(old(self).link(), data@, message_stream) {
                Outcome::Reads(link, _) => v == Verdict::Fine && final(self).link() == link,
                Outcome::Refused => v == Verdict::Refused,
                Outcome::Faulty => v == Verdict::Faulty,
            },
            final(self).rest() == old(self).rest(),
    {
        broadcast use vstd::std_specs::hash::group_hash_axioms;

        let create: [u8; 15] = [
            2, 0, 12, 0x63, 0x72, 0x65, 0x61, 0x74, 0x65, 0x53, 0x74, 0x72, 0x65, 0x61, 0x6D,
        ];
        let connect: [u8; 10] = [2, 0, 7, 0x63, 0x6F, 0x6E, 0x6E, 0x65, 0x63, 0x74];
        let publish: [u8; 10] = [2, 0, 7, 0x70, 0x75, 0x62, 0x6C, 0x69, 0x73, 0x68];
        let play: [u8; 7] = [2, 0, 4, 0x70, 0x6C, 0x61, 0x79];
        assert(create@ =~= create_stream_name());
        assert(connect@ =~= connect_name());
        assert(publish@ =~= publish_name());
        assert(play@ =~= play_name());
        if begins_with(data, &create) {
            if self.streams >= MAX_STREAMS {
                return Verdict::Faulty;
            }
            self.streams = self.streams + 1;
            return Verdict::Fine;
        }
        let publishes = begins_with(data, &publish);
        if publishes || begins_with(data, &connect) || begins_with(data, &play) {
            if self.requests >= MAX_REQUESTS {
                return Verdict::Faulty;
            }
            self.requests = self.requests + 1;
            if publishes {
                self.published.insert(message_stream);
            }
        }
        Verdict::Fine
    }

    /// Takes a message.
    fn take_message(&mut self, header: ChunkHeader, data: &[u8]) -> (v: Verdict)
        ensures
            match message(old(self).link(), header, data@) {
                Outcome::Reads(link, _) => v == Verdict::Fine && final(self).link() == link,
                Outcome::Refused => v == Verdict::Refused,
                Outcome::Faulty => v == Verdict::Faulty,
            },
            final(self).rest() == old(self).rest(),
    {
        broadcast use vstd::std_specs::hash::group_hash_axioms;

        let kind: u8 = header.kind;
        if kind == SET_CHUNK_SIZE {
            if data.len() < 4 {
                return Verdict::Refused;
            }
            let size: u32 = amf0::read32(data, 0);
            if size > MAX_CHUNK_SIZE {
                return Verdict::Refused;
            }
            self.chunk_size = size;
        } else if kind == WINDOW_ACK_SIZE {
            if data.len() < 4 {
                return Verdict::Refused;
            }
            self.ack_size = Some(amf0::read32(data, 0));
        } else if kind == DATA || kind == DATA_MARKED_AMF3 {
            match amf0::count_values(data) {
                Values::Broken => {
                    return Verdict::Refused;
                },
                Values::TooDeep => {
                    return Verdict::Faulty;
                },
                Values::Count(n) => {
                    if empty_frame(data, n, self.published.contains(&header.message_stream)) {
                        return Verdict::Faulty;
                    }
                },
            }
        } else if kind == COMMAND || kind == COMMAND_MARKED_AMF3 {
            let marked = kind == COMMAND_MARKED_AMF3 && data.len() > 0 && data[0] == 0;
            let values = if marked {
                vstd::slice::slice_subrange(data, 1, data.len())
            } else {
                data
            };
            assert(values@ =~= command_values(kind, data@));
            match amf0::count_values(values) {
                Values::Broken => {
                    return Verdict::Refused;
                },
                Values::TooDeep => {
                    return Verdict::Faulty;
                },
                Values::Count(n) => {
                    if n < 3 {
                        return Verdict::Faulty;
                    }
                    return self.take_command(values, header.message_stream);
                },
            }
        }
        Verdict::Fine
    }

    /// Takes a chunk with these bytes of its message.
    fn take_chunk(&mut self, stream: u32, header: ChunkHeader, piece: &[u8]) -> (v: Verdict)
        ensures
            match taken(old(self).link(), stream, header, piece@) {
                Outcome::Reads(link, _) => v == Verdict::Fine && final(self).link() == link,
                Outcome::Refused => v == Verdict::Refused,
                Outcome::Faulty => v == Verdict::Faulty,
            },
            final(self).rest() == old(self).rest(),
    {
        broadcast use vstd::std_specs::hash::group_hash_axioms;

        self.payload.extend_from_slice(piece);
        self.headers.insert(stream, header);
        assert(self.payload@ =~= old(self).payload@ + piece@);
        if self.payload.len() as u64 == header.length as u64 {
            let mut data: Vec<u8> = Vec::new();
            std::mem::swap(&mut data, &mut self.payload);
            self.take_message(header, data.as_slice())
        } else {
            Verdict::Fine
        }
    }

    /// Takes more bytes, and says what the session makes of them.
    pub fn feed(&mut self, bytes: &[u8]) -> (v: Verdict)
        ensures
            match read(old(self).link(), old(self).rest() + bytes@) {
                Outcome::Reads(link, rest) => {
                    &&& v == Verdict::Fine
                    &&& final(self).link() == link
                    &&& final(self).rest() == rest
                },
                Outcome::Refused => v == Verdict::Refused,
                Outcome::Faulty => v == Verdict::Faulty,
            },
    {
        let mut buf: Vec<u8> = Vec::new();
        std::mem::swap(&mut buf, &mut self.rest);
        buf.extend_from_slice(bytes);
        let ghost all = old(self).rest() + bytes@;
        assert(buf@ =~= all);
        let mut at: usize = 0;
        assert(all.skip(0) =~= all);
        loop
            invariant
                all == old(self).rest() + bytes@,
                buf@ == all,
                at <= buf@.len(),
                read(old(self).link(), all) == read(self.link(), all.skip(at as int)),
            decreases buf@.len() - at,
        {
            let ghost link = self.link();
            let ghost tail = all.skip(at as int);
            let found = self.chunk_at(buf.as_slice(), at);
            proof {
                lemma_read(link, tail);
            }
            match found {
                ChunkAt::Partial => {
                    let tail = vstd::slice::slice_subrange(buf.as_slice(), at, buf.len());
                    assert(tail@ =~= all.skip(at as int));
                    let mut rest: Vec<u8> = Vec::new();
                    rest.extend_from_slice(tail);
                    assert(rest@ =~= tail@);
                    self.rest = rest;
                    return Verdict::Fine;
                },
                ChunkAt::Refused => {
                    return Verdict::Refused;
                },
                ChunkAt::Faulty => {
                    return Verdict::Faulty;
                },
                ChunkAt::Whole { stream, header, from, end } => {
                    let piece = vstd::slice::slice_subrange(buf.as_slice(), from, end);
                    assert(piece@ =~= all.skip(at as int).subrange(from - at, end - at));
                    assert(all.skip(at as int).skip(end - at) =~= all.skip(end as int));
                    let v = self.take_chunk(stream, header, piece);
                    if v != Verdict::Fine {
                        return v;
                    }
                    at = end;
                },
            }
        }
    }
}

// ── laws ────────────────────────────────────────────────────────────────────

/// Audio, video and every other message that does not bear on how the rest is read
/// reaches the session, whatever it holds and however long it is, and changes nothing.
pub proof fn law_media_reaches_the_session(link: Link, header: ChunkHeader, data: Seq<u8>)
    requires
        header.kind != 1,
        header.kind != 5,
        header.kind != 15,
        header.kind != 17,
        header.kind != 18,
        header.kind != 20,
    ensures
        message(link, header, data) == Outcome::Reads(link, Seq::<u8>::empty()),
{
}

/// The 32-bit number that four bytes begin with.
pub open spec fn number(data: Seq<u8>) -> int {
    data[0] * 0x100_0000 + data[1] * 0x1_0000 + data[2] * 0x100 + data[3]
}

/// A new chunk size takes effect at once and changes nothing else; one above 31 bits, or
/// cut short, is the session's to refuse. So it is with how often to acknowledge.
pub proof fn law_sizes_take_effect(link: Link, header: ChunkHeader, data: Seq<u8>)
    ensures
        header.kind == 1 && data.len() >= 4 && number(data) <= 0x7FFF_FFFF ==> (message(
            link,
            header,
            data,
        ) matches Outcome::Reads(next, _) && next == (Link {
            chunk_size: number(data) as nat,
            ..link
        })),
        header.kind == 1 && (data.len() < 4 || number(data) > 0x7FFF_FFFF) ==> message(
            link,
            header,
            data,
        ) is Refused,
        header.kind == 5 && data.len() >= 4 ==> (message(
            link,
            header,
            data,
        ) matches Outcome::Reads(next, _) && (next.ack_size matches Some(n) && n == number(data))
            && next == (Link { ack_size: next.ack_size, ..link })),
        header.kind == 5 && data.len() < 4 ==> message(link, header, data) is Refused,
{
}

/// Data reaches the session unless it nests too deeply or is an empty frame; what is not
/// AMF0 is the session's to refuse.
pub proof fn law_data_reaches_the_session(link: Link, header: ChunkHeader, data: Seq<u8>)
    requires
        header.kind == 18 || header.kind == 15,
    ensures
        match amf0::values(data) {
            Values::TooDeep => message(link, header, data) is Faulty,
            Values::Broken => message(link, header, data) is Refused,
            Values::Count(n) => {
                let marked = begins(
                    data,
                    seq![
                        2u8, 0, 13, 64, 115, 101, 116, 68, 97, 116, 97, 70, 114, 97, 109, 101,
                    ],
                );
                let named = data.len() >= 29 && data.subrange(16, 29) == seq![
                    2u8, 0, 10, 111, 110, 77, 101, 116, 97, 68, 97, 116, 97,
                ];
                let empty = marked && (n == 1 || (n == 2 && named && link.published.contains(
                    header.message_stream,
                )));
                if empty {
                    message(link, header, data) is Faulty
                } else {
                    message(link, header, data) == Outcome::Reads(link, Seq::<u8>::empty())
                }
            },
        },
{
    let marker = set_data_frame();
    let name = on_meta_data();
    let both = marker + name;
    assert(marker =~= seq![
        2u8, 0, 13, 64, 115, 101, 116, 68, 97, 116, 97, 70, 114, 97, 109, 101,
    ]);
    assert(name =~= seq![2u8, 0, 10, 111, 110, 77, 101, 116, 97, 68, 97, 116, 97]);
    if data.len() >= 29 {
        if begins(data, both) {
            assert(data.take(29) == both);
            assert(data.take(16) =~= both.take(16));
            assert(both.take(16) =~= marker);
            assert(data.subrange(16, 29) =~= both.subrange(16, 29));
            assert(both.subrange(16, 29) =~= name);
        } else if begins(data, marker) && data.subrange(16, 29) == name {
            assert(data.take(29) =~= data.take(16) + data.subrange(16, 29));
        }
    }
}

/// The AMF0 text with these characters' bytes.
pub open spec fn amf_text(bytes: Seq<u8>) -> Seq<u8> {
    seq![2u8, 0, bytes.len() as u8] + bytes
}

/// A command of three values or more reaches the session. `connect`, `publish` and `play`
/// count as requests, `publish` marks its message stream, `createStream` counts as a
/// stream, and any other command changes nothing. One of fewer values does not reach it.
pub proof fn law_commands_reach_the_session(link: Link, header: ChunkHeader, data: Seq<u8>)
    requires
        header.kind == 20 || (header.kind == 17 && (data.len() == 0 || data[0] != 0)),
        link.requests < 0xFFFF_FFFF,
        link.streams < 0xFFFF_FFFE,
    ensures
        match amf0::values(data) {
            Values::TooDeep => message(link, header, data) is Faulty,
            Values::Broken => message(link, header, data) is Refused,
            Values::Count(n) => if n < 3 {
                message(link, header, data) is Faulty
            } else {
                let connect = begins(data, amf_text(seq![99u8, 111, 110, 110, 101, 99, 116]));
                let publish = begins(data, amf_text(seq![112u8, 117, 98, 108, 105, 115, 104]));
                let play = begins(data, amf_text(seq![112u8, 108, 97, 121]));
                let create = begins(
                    data,
                    amf_text(
                        seq![99u8, 114, 101, 97, 116, 101, 83, 116, 114, 101, 97, 109],
                    ),
                );
                message(link, header, data) matches Outcome::Reads(next, _) && {
                    &&& next.chunk_size == link.chunk_size
                    &&& next.headers == link.headers
                    &&& next.payload == link.payload
                    &&& next.ack_size == link.ack_size
                    &&& next.requests == link.requests + if connect || publish || play {
                        1nat
                    } else {
                        0nat
                    }
                    &&& next.streams == link.streams + if create {
                        1nat
                    } else {
                        0nat
                    }
                    &&& next.published == if publish {
                        link.published.insert(header.message_stream)
                    } else {
                        link.published
                    }
                }
            },
        },
{
    assert(command_values(header.kind, data) == data);
    let create = create_stream_name();
    assert(amf_text(seq![99u8, 111, 110, 110, 101, 99, 116]) =~= connect_name());
    assert(amf_text(seq![112u8, 117, 98, 108, 105, 115, 104]) =~= publish_name());
    assert(amf_text(seq![112u8, 108, 97, 121]) =~= play_name());
    assert(amf_text(seq![99u8, 114, 101, 97, 116, 101, 83, 116, 114, 101, 97, 109]) =~= create);
    if begins(data, create) {
        assert(data.take(15)[2] == create[2]);
        assert(data[2] == 12);
        if begins(data, connect_name()) {
            assert(data.take(10)[2] == connect_name()[2]);
        }
        if begins(data, publish_name()) {
            assert(data.take(10)[2] == publish_name()[2]);
        }
        if begins(data, play_name()) {
            assert(data.take(7)[2] == play_name()[2]);
        }
    }
}

/// A command that is marked as AMF3 may have a zero before its values, and is then taken
/// as the command after it.
pub proof fn law_marked_commands(link: Link, marked: ChunkHeader, plain: ChunkHeader, data: Seq<u8>)
    requires
        marked.kind == 17,
        plain == (ChunkHeader { kind: 20, ..marked }),
    ensures
        message(link, marked, seq![0u8] + data) == message(link, plain, data),
{
    assert((seq![0u8] + data).skip(1) =~= data);
}

/// What a chunk's header says. Its first byte holds the format and, for chunk streams
/// 2 to 63, the chunk stream; further ones have one or two bytes more. A full header
/// has a time, a length, a type and a message stream; the shorter ones leave out what
/// the one before on the same chunk stream has said: the message stream, then length
/// and type, then the time.
pub proof fn law_headers_take_over(link: Link, buf: Seq<u8>)
    requires
        chunk(link, buf) is Whole,
    ensures
        chunk(link, buf) matches Chunk::Whole { stream, header, from, end } && {
            let format = buf[0] / 64;
            let low = buf[0] % 64;
            let p: int = if low == 0 {
                2
            } else if low == 1 {
                3
            } else {
                1
            };
            let last = link.headers[stream];
            let extra: int = if header.time == 0xFF_FFFF {
                4
            } else {
                0
            };
            &&& low == 0 ==> stream == buf[1] + 64
            &&& low == 1 ==> stream == buf[1] + 256 * buf[2] + 64
            &&& low >= 2 ==> stream == low
            &&& format != 3 ==> header.time == buf[p] * 0x1_0000 + buf[p + 1] * 0x100 + buf[p + 2]
            &&& format == 3 ==> header.time == last.time
            &&& format <= 1 ==> header.length == buf[p + 3] * 0x1_0000 + buf[p + 4] * 0x100 + buf[p
                + 5]
            &&& format <= 1 ==> header.kind == buf[p + 6]
            &&& format >= 2 ==> header.length == last.length && header.kind == last.kind
            &&& format == 0 ==> header.message_stream == buf[p + 7] + 0x100 * buf[p + 8] + 0x1_0000
                * buf[p + 9] + 0x100_0000 * buf[p + 10]
            &&& format != 0 ==> header.message_stream == last.message_stream
            &&& format != 0 ==> link.headers.contains_key(stream)
            &&& format == 0 ==> from == p + 11 + extra
            &&& format == 1 ==> from == p + 7 + extra
            &&& format == 2 ==> from == p + 3 + extra
            &&& format == 3 && last.time < 0xFF_FFFF ==> from == p
            &&& header.length <= link.chunk_size ==> end == from + header.length
            &&& header.length > link.chunk_size ==> end - from <= link.chunk_size && end - from
                <= header.length - link.payload.len() && (end - from == link.chunk_size || end
                - from == header.length - link.payload.len())
        },
{
}

/// Which chunks are not taken. One that continues no other is the session's to refuse.
/// Two kinds are kept from it: a message announced to be shorter than what has come of
/// it, and a time difference that is written in four bytes more without need, at the
/// beginning of a message. All others are waited for or taken.
pub proof fn law_what_is_kept_from_the_session(link: Link, buf: Seq<u8>)
    requires
        buf.len() >= 1,
        buf[0] % 64 >= 2,
    ensures
        ({
            let format = buf[0] / 64;
            let stream = (buf[0] % 64) as u32;
            let known = link.headers.contains_key(stream);
            let last = link.headers[stream];
            let at: int = if format == 0 {
                12
            } else if format == 1 {
                8
            } else if format == 2 {
                4
            } else {
                1
            };
            let there = buf.len() >= at && (format == 0 || known);
            let time = if format == 3 {
                last.time as int
            } else {
                buf[1] * 0x1_0000 + buf[2] * 0x100 + buf[3]
            };
            let length = if format <= 1 {
                buf[4] * 0x1_0000 + buf[5] * 0x100 + buf[6]
            } else {
                last.length as int
            };
            let extended = time >= 0xFF_FFFF;
            let needless = extended && format != 0 && link.payload.len() == 0 && buf.len() >= at
                + 4 && number(buf.skip(at)) < 0xFF_FFFF;
            let short = length < link.payload.len() && (extended ==> buf.len() >= at + 4);
            &&& chunk(link, buf) is Refused <==> format != 0 && !known
            &&& chunk(link, buf) is Faulty <==> there && (needless || short)
            &&& there && !needless && !short && !extended && buf.len() >= at + length
                ==> chunk(link, buf) is Whole
        }),
{
    let b = basic(buf)->0;
    let at = b.len + header_len(b.format);
    if buf.len() >= at + 4 {
        assert(number(buf.skip(at)) == amf0::be32(buf, at));
    }
}

/// `head` is the full header of a message with these marks on a chunk stream of one byte.
pub open spec fn is_full_header(head: Seq<u8>, stream: u8, h: ChunkHeader) -> bool {
    &&& head.len() == 12
    &&& head[0] == stream
    &&& h.time == head[1] * 0x1_0000 + head[2] * 0x100 + head[3]
    &&& h.length == head[4] * 0x1_0000 + head[5] * 0x100 + head[6]
    &&& h.kind == head[7]
    &&& h.message_stream == head[8] + head[9] * 0x100 + head[10] * 0x1_0000 + head[11]
        * 0x100_0000
}

/// A message from its byte `at` on, in chunks without headers of their own.
pub open spec fn sent_on(stream: u8, data: Seq<u8>, at: int, size: nat) -> Seq<u8>
    decreases data.len() - at,
{
    if at >= data.len() || size == 0 {
        Seq::empty()
    } else if data.len() - at <= size {
        seq![(192 + stream) as u8] + data.skip(at)
    } else {
        seq![(192 + stream) as u8] + data.subrange(at, at + size) + sent_on(
            stream,
            data,
            at + size,
            size,
        )
    }
}

/// A message in chunks of at most `size` of its bytes, the first with its header.
pub open spec fn sent(head: Seq<u8>, data: Seq<u8>, size: nat) -> Seq<u8> {
    if data.len() <= size {
        head + data
    } else {
        head + data.take(size as int) + sent_on(head[0], data, size as int, size)
    }
}

/// What comes of `more` where this has come of what was before.
pub open spec fn followed(before: Outcome, more: Seq<u8>) -> Outcome {
    match before {
        Outcome::Reads(next, _) => read(next, more),
        other => other,
    }
}

proof fn lemma_continued(link: Link, stream: u8, h: ChunkHeader, piece: Seq<u8>, rest: Seq<u8>)
    requires
        2 <= stream <= 63,
        h.time < 0xFF_FFFF,
        link.payload.len() < h.length,
        link.chunk_size < h.length,
        piece.len() == piece_len(link, h.length as nat),
        link.headers.contains_key(stream as u32),
        link.headers[stream as u32] == h,
    ensures
        read(link, seq![(192 + stream) as u8] + piece + rest) == followed(
            taken(link, stream as u32, h, piece),
            rest,
        ),
{
    let first = (192 + stream) as u8;
    let buf = seq![first] + piece + rest;
    let end = 1 + piece.len() as int;
    assert(buf[0] == first);
    assert(first % 64 == stream && first / 64 == 3);
    assert(chunk(link, buf) == (Chunk::Whole { stream: stream as u32, header: h, from: 1, end }));
    assert(buf.subrange(1, end) =~= piece);
    assert(buf.skip(end) =~= rest);
}

proof fn lemma_sent_on_parts(stream: u8, data: Seq<u8>, at: int, size: nat, more: Seq<u8>)
    requires
        0 <= at < data.len(),
        0 < size,
    ensures
        data.len() - at <= size ==> sent_on(stream, data, at, size) + more == seq![
            (192 + stream) as u8,
        ] + data.skip(at) + more,
        data.len() - at > size ==> sent_on(stream, data, at, size) + more == seq![
            (192 + stream) as u8,
        ] + data.subrange(at, at + size) + (sent_on(stream, data, at + size, size) + more),
{
    if data.len() - at > size {
        let a = seq![(192 + stream) as u8] + data.subrange(at, at + size);
        let b = sent_on(stream, data, at + size, size);
        assert(a + b + more =~= a + (b + more));
    }
}

proof fn lemma_taken_on(link: Link, stream: u32, h: ChunkHeader, data: Seq<u8>, piece: Seq<u8>)
    requires
        h.length == data.len(),
        link.payload + piece == data.take((link.payload + piece).len() as int),
        link.payload.len() + piece.len() <= data.len(),
        link.headers.contains_key(stream),
        link.headers[stream] == h,
    ensures
        (link.payload + piece).len() == data.len() ==> taken(link, stream, h, piece) == message(
            Link { payload: Seq::empty(), ..link },
            h,
            data,
        ),
        (link.payload + piece).len() < data.len() ==> taken(link, stream, h, piece)
            == Outcome::Reads(
            Link { payload: link.payload + piece, ..link },
            Seq::<u8>::empty(),
        ),
{
    assert(link.headers.insert(stream, h) =~= link.headers);
    assert(data.take(data.len() as int) =~= data);
}

proof fn lemma_sent_on(link: Link, stream: u8, h: ChunkHeader, data: Seq<u8>, more: Seq<u8>)
    requires
        2 <= stream <= 63,
        h.time < 0xFF_FFFF,
        h.length == data.len(),
        0 < link.chunk_size,
        link.chunk_size < data.len(),
        link.payload.len() < data.len(),
        link.payload == data.take(link.payload.len() as int),
        link.headers.contains_key(stream as u32),
        link.headers[stream as u32] == h,
    ensures
        read(
            link,
            sent_on(stream, data, link.payload.len() as int, link.chunk_size) + more,
        ) == followed(message(Link { payload: Seq::empty(), ..link }, h, data), more),
    decreases data.len() - link.payload.len(),
{
    let at = link.payload.len() as int;
    let size = link.chunk_size;
    lemma_sent_on_parts(stream, data, at, size, more);
    if data.len() - at <= size {
        let piece = data.skip(at);
        assert(link.payload + piece =~= data);
        assert(data =~= data.take(data.len() as int));
        lemma_continued(link, stream, h, piece, more);
        lemma_taken_on(link, stream as u32, h, data, piece);
    } else {
        let piece = data.subrange(at, at + size);
        let next = Link { payload: link.payload + piece, ..link };
        assert(link.payload + piece =~= data.take(at + size));
        lemma_continued(
            link,
            stream,
            h,
            piece,
            sent_on(stream, data, at + size, size) + more,
        );
        lemma_taken_on(link, stream as u32, h, data, piece);
        lemma_sent_on(next, stream, h, data, more);
    }
}

/// A message is read as it was sent: in however many chunks it comes, the reader takes
/// all of its bytes and no others for it, and remembers its header for the chunk stream.
pub proof fn law_messages_are_read_whole(
    link: Link,
    head: Seq<u8>,
    h: ChunkHeader,
    data: Seq<u8>,
    more: Seq<u8>,
)
    requires
        head.len() == 12,
        2 <= head[0] <= 63,
        is_full_header(head, head[0], h),
        h.time < 0xFF_FFFF,
        h.length == data.len(),
        link.chunk_size > 0,
        link.payload.len() == 0,
    ensures
        read(link, sent(head, data, link.chunk_size) + more) == followed(
            message(Link { headers: link.headers.insert(head[0] as u32, h), ..link }, h, data),
            more,
        ),
{
    let stream = head[0] as u32;
    let size = link.chunk_size;
    let buf = sent(head, data, size) + more;
    assert(forall|i: int| 0 <= i < 12 ==> buf[i] == head[i]);
    assert(head[0] / 64 == 0 && head[0] % 64 == head[0]);
    assert(header_at(buf, 1, 0, link.headers[stream]) == h);
    let n = if data.len() <= size {
        data.len() as int
    } else {
        size as int
    };
    assert(chunk(link, buf) == (Chunk::Whole { stream, header: h, from: 12, end: 12 + n }));
    assert(buf.subrange(12, 12 + n) =~= data.take(n));
    let next = Link { headers: link.headers.insert(stream, h), ..link };
    assert(next.payload =~= Seq::empty());
    if data.len() <= size {
        assert(link.payload + data.take(n) =~= data);
        assert(buf.skip(12 + n) =~= more);
    } else {
        assert(link.payload + data.take(n) =~= data.take(n));
        assert(buf.skip(12 + n) =~= sent_on(head[0], data, n, size) + more);
        lemma_sent_on(Link { payload: data.take(n), ..next }, head[0], h, data, more);
    }
}

/// A connection begins with chunks of 128 bytes, nothing asked for and nothing known.
pub proof fn law_connections_begin_plain()
    ensures
        new_link().chunk_size == 128,
        new_link().headers == Map::<u32, ChunkHeader>::empty(),
        new_link().payload.len() == 0,
        new_link().requests == 0,
        new_link().streams == 0,
        forall|n: u32| !new_link().published.contains(n),
        new_link().ack_size is None,
{
}

/// Audio, video and whatever else the reader takes no part in never ends a connection:
/// between two messages such a message is read to its end, in however many chunks it
/// comes, and leaves nothing but its header.
pub proof fn law_media_is_read(
    input: Seq<u8>,
    link: Link,
    head: Seq<u8>,
    h: ChunkHeader,
    data: Seq<u8>,
)
    requires
        read_all(input) == Outcome::Reads(link, Seq::<u8>::empty()),
        link.payload.len() == 0,
        link.chunk_size > 0,
        head.len() == 12,
        2 <= head[0] <= 63,
        is_full_header(head, head[0], h),
        h.time < 0xFF_FFFF,
        h.length == data.len(),
        h.kind == 8 || h.kind == 9 || h.kind > 20,
    ensures
        read_all(input + sent(head, data, link.chunk_size)) == Outcome::Reads(
            Link { headers: link.headers.insert(head[0] as u32, h), ..link },
            Seq::<u8>::empty(),
        ),
{
    let wire = sent(head, data, link.chunk_size);
    let next = Link { headers: link.headers.insert(head[0] as u32, h), ..link };
    law_portions_do_not_matter(new_link(), input, wire);
    assert(Seq::<u8>::empty() + wire =~= wire);
    law_messages_are_read_whole(link, head, h, data, Seq::empty());
    assert(wire + Seq::<u8>::empty() =~= wire);
    law_media_reaches_the_session(next, h, data);
    assert(read(next, Seq::empty()) == Outcome::Reads(next, Seq::<u8>::empty()));
}

/// Before the client has said how often it wants its bytes acknowledged, nothing is
/// counted. Afterwards each byte counts, and the count starts over where it reaches
/// what the client has said.
pub proof fn law_acknowledgements_are_due(input: Seq<u8>, unacked: nat, n: nat)
    requires
        n < 0x1_0000_0000,
    ensures
        !(read_all(input) matches Outcome::Reads(link, _) && link.ack_size is Some)
            ==> unacked_after(input, unacked, n) == unacked && count_fits(input, unacked, n),
        read_all(input) matches Outcome::Reads(link, _) ==> (link.ack_size matches Some(size) ==> {
            &&& unacked + n < size ==> unacked_after(input, unacked, n) == unacked + n
            &&& unacked + n >= size ==> unacked_after(input, unacked, n) == 0
            &&& count_fits(input, unacked, n) <==> unacked + n <= 0xFFFF_FFFF
        }),
{
}

/// What the session is given: bytes that it survives, as long as their number and the
/// number of those that are not acknowledged can be counted.
pub proof fn law_what_is_admitted(input: Seq<u8>, unacked: nat, bytes: Seq<u8>)
    requires
        bytes.len() < 0x1_0000_0000,
        unacked + bytes.len() <= 0xFFFF_FFFF,
        input.len() + bytes.len() <= 0xFFFF_FFFF_FFFF_FFFF,
    ensures
        admits(input, unacked, bytes) <==> !(read_all(input + bytes) is Faulty),
{
}

/// A request more than 32 bits can number, and a message stream more than there are
/// numbers for, are kept from the session; nothing else bears on these limits.
pub proof fn law_numbers_run_out(link: Link, header: ChunkHeader, data: Seq<u8>)
    requires
        header.kind == 20,
        amf0::values(data) matches Values::Count(n) && n >= 3,
    ensures
        begins(data, amf_text(seq![99u8, 111, 110, 110, 101, 99, 116])) && link.requests
            >= 0xFFFF_FFFF ==> message(link, header, data) is Faulty,
        begins(
            data,
            amf_text(seq![99u8, 114, 101, 97, 116, 101, 83, 116, 114, 101, 97, 109]),
        ) ==> ((message(link, header, data) is Faulty) <==> link.streams >= 0xFFFF_FFFE),
{
    let create = create_stream_name();
    assert(amf_text(seq![99u8, 111, 110, 110, 101, 99, 116]) =~= connect_name());
    assert(amf_text(seq![99u8, 114, 101, 97, 116, 101, 83, 116, 114, 101, 97, 109]) =~= create);
    if begins(data, create) && begins(data, connect_name()) {
        assert(data.take(15)[2] == create[2]);
        assert(data.take(10)[2] == connect_name()[2]);
    }
}

} // verus!
