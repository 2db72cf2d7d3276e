//! The pipeline as a plan: which elements it has, how they are set up, and how
//! they are linked.
//!
//! ```text
//! ingest → demux → parse_h264 → dec → rate_smooth → convert → caps_nv12
//!        → enc → parse_out → tee_encoded ─┬─→ q_srt → ts → uplink
//!                                         └─→ q_preview → preview
//! ```

use vstd::prelude::*;

use crate::encoder;
use crate::encoder::{Bitstream, CapsField, EncoderSettings, Prop, PropValue};
use crate::text;

verus! {

/// An element of the pipeline.
#[derive(Debug, Clone, Copy, PartialEq, Eq, Structural)]
pub enum Stage {
    Ingest,
    Demux,
    ParseIn,
    Decode,
    RateSmooth,
    Convert,
    CapsNv12,
    Encode,
    ParseOut,
    TeeEncoded,
    QueueSrt,
    TsMux,
    SrtSink,
    QueuePreview,
    PreviewSink,
}

/// How two elements are joined.
#[derive(Debug, Clone, Copy, PartialEq, Eq, Structural)]
pub enum Join {
    /// At once, by the pads that both always have.
    Static,
    /// At once, by a pad that the tee makes on request.
    TeePad,
    /// When the demuxer finds the stream.
    DemuxPad,
}

/// A link between two elements.
#[derive(Debug, Clone, Copy, PartialEq, Eq, Structural)]
pub struct Link {
    pub from: Stage,
    pub to: Stage,
    pub join: Join,
}

/// The nanoseconds of a second.
pub const SECOND_NS: u64 = 1_000_000_000;

// ── elements ────────────────────────────────────────────────────────────────

/// The element that carries the encoded stream to preview clients, and the queue
/// before it.
pub open spec fn is_preview(s: Stage) -> bool {
    s == Stage::QueuePreview || s == Stage::PreviewSink
}

/// The elements, in the order in which they are added.
pub open spec fn stages_spec(preview: bool) -> Seq<Stage> {
    seq![
        Stage::Ingest,
        Stage::Demux,
        Stage::ParseIn,
        Stage::Decode,
        Stage::RateSmooth,
        Stage::Convert,
        Stage::CapsNv12,
        Stage::Encode,
        Stage::ParseOut,
        Stage::TeeEncoded,
        Stage::QueueSrt,
        Stage::TsMux,
        Stage::SrtSink,
    ] + if preview {
        seq![Stage::QueuePreview, Stage::PreviewSink]
    } else {
        Seq::empty()
    }
}

/// The elements of the pipeline, with or without a preview branch.
pub fn pipeline_stages(preview: bool) -> (stages: Vec<Stage>)
    ensures
        stages@ == stages_spec(preview),
{
    let mut stages: Vec<Stage> = vec![
        Stage::Ingest,
        Stage::Demux,
        Stage::ParseIn,
        Stage::Decode,
        Stage::RateSmooth,
        Stage::Convert,
        Stage::CapsNv12,
        Stage::Encode,
        Stage::ParseOut,
        Stage::TeeEncoded,
        Stage::QueueSrt,
        Stage::TsMux,
        Stage::SrtSink,
    ];
    if preview {
        stages.push(Stage::QueuePreview);
        stages.push(Stage::PreviewSink);
    }
    assert(stages@ =~= stages_spec(preview));
    stages
}

/// The name of an element within the pipeline.
pub open spec fn name_spec(s: Stage) -> Seq<char> {
    match s {
        Stage::Ingest => "ingest"@,
        Stage::Demux => "demux"@,
        Stage::ParseIn => "parse_h264"@,
        Stage::Decode => "dec"@,
        Stage::RateSmooth => "rate_smooth"@,
        Stage::Convert => "convert"@,
        Stage::CapsNv12 => "caps_nv12"@,
        Stage::Encode => "enc"@,
        Stage::ParseOut => "parse_out"@,
        Stage::TeeEncoded => "tee_encoded"@,
        Stage::QueueSrt => "q_srt"@,
        Stage::TsMux => "ts"@,
        Stage::SrtSink => "uplink"@,
        Stage::QueuePreview => "q_preview"@,
        Stage::PreviewSink => "preview"@,
    }
}

/// The name of an element within the pipeline.
pub fn stage_name(s: Stage) -> (name: &'static str)
    ensures
        name@ == name_spec(s),
{
    match s {
        Stage::Ingest => "ingest",
        Stage::Demux => "demux",
        Stage::ParseIn => "parse_h264",
        Stage::Decode => "dec",
        Stage::RateSmooth => "rate_smooth",
        Stage::Convert => "convert",
        Stage::CapsNv12 => "caps_nv12",
        Stage::Encode => "enc",
        Stage::ParseOut => "parse_out",
        Stage::TeeEncoded => "tee_encoded",
        Stage::QueueSrt => "q_srt",
        Stage::TsMux => "ts",
        Stage::SrtSink => "uplink",
        Stage::QueuePreview => "q_preview",
        Stage::PreviewSink => "preview",
    }
}

/// The factory that makes an element.
pub open spec fn stage_factory_spec(s: Stage, e: EncoderSettings) -> Seq<char> {
    match s {
        Stage::Ingest => "appsrc"@,
        Stage::Demux => "flvdemux"@,
        Stage::ParseIn => "h264parse"@,
        Stage::Decode => "avdec_h264"@,
        Stage::RateSmooth => "videorate"@,
        Stage::Convert => "videoconvert"@,
        Stage::CapsNv12 => "capsfilter"@,
        Stage::Encode => encoder::factory_spec(e.kind),
        Stage::ParseOut => encoder::parser_spec(encoder::bitstream_spec(e.kind)),
        Stage::TeeEncoded => "tee"@,
        Stage::QueueSrt => "queue"@,
        Stage::TsMux => "mpegtsmux"@,
        Stage::SrtSink => "srtsink"@,
        Stage::QueuePreview => "queue"@,
        Stage::PreviewSink => "appsink"@,
    }
}

/// The factory that makes an element.
pub fn stage_factory(s: Stage, e: &EncoderSettings) -> (factory: &'static str)
    ensures
        factory@ == stage_factory_spec(s, *e),
{
    match s {
        Stage::Ingest => "appsrc",
        Stage::Demux => "flvdemux",
        Stage::ParseIn => "h264parse",
        Stage::Decode => "avdec_h264",
        Stage::RateSmooth => "videorate",
        Stage::Convert => "videoconvert",
        Stage::CapsNv12 => "capsfilter",
        Stage::Encode => encoder::encoder_factory(e.kind),
        Stage::ParseOut => encoder::parser_factory(e.kind.bitstream()),
        Stage::TeeEncoded => "tee",
        Stage::QueueSrt => "queue",
        Stage::TsMux => "mpegtsmux",
        Stage::SrtSink => "srtsink",
        Stage::QueuePreview => "queue",
        Stage::PreviewSink => "appsink",
    }
}

// ── properties ──────────────────────────────────────────────────────────────


/// A queue's limits: a number of buffers, no limit in bytes, and a time.
pub open spec fn queue_spec(max_buffers: u32, max_time_ns: u64, leaky: bool) -> Seq<
    encoder::PropView,
> {
    seq![
        encoder::PropView {
            key: "max-size-buffers"@,
            value: encoder::ValueView::U32(max_buffers),
        },
        encoder::PropView { key: "max-size-bytes"@, value: encoder::ValueView::U32(0) },
        encoder::PropView { key: "max-size-time"@, value: encoder::ValueView::U64(max_time_ns) },
    ] + if leaky {
        seq![
            encoder::PropView { key: "leaky"@, value: encoder::ValueView::Named("downstream"@) },
        ]
    } else {
        Seq::empty()
    }
}

/// What the preview sink asks of the encoded stream: whole access units in
/// byte-stream form, for the bitstreams that have another form.
pub open spec fn preview_caps_spec(b: Bitstream) -> Seq<encoder::PropView> {
    let framed = seq![
        ("stream-format"@, "byte-stream"@),
        ("alignment"@, "au"@),
    ];
    match b {
        Bitstream::H265 => seq![
            encoder::PropView {
                key: "caps"@,
                value: encoder::ValueView::Caps { media: "video/x-h265"@, fields: framed },
            },
        ],
        Bitstream::H264 => seq![
            encoder::PropView {
                key: "caps"@,
                value: encoder::ValueView::Caps { media: "video/x-h264"@, fields: framed },
            },
        ],
        Bitstream::Av1 => Seq::empty(),
    }
}

/// The properties of an element, in the order in which they are set.
pub open spec fn stage_props_spec(s: Stage, e: EncoderSettings, srt_uri: Seq<char>) -> Seq<
    encoder::PropView,
> {
    let flag = |key: Seq<char>, b: bool|
        encoder::PropView { key, value: encoder::ValueView::Bool(b) };
    match s {
        Stage::Ingest => seq![
            flag("is-live"@, true),
            flag("do-timestamp"@, false),
            flag("block"@, false),
            encoder::PropView { key: "stream-type"@, value: encoder::ValueView::Named("stream"@) },
            encoder::PropView { key: "format"@, value: encoder::ValueView::Named("time"@) },
            encoder::PropView {
                key: "caps"@,
                value: encoder::ValueView::Caps { media: "video/x-flv"@, fields: Seq::empty() },
            },
        ],
        Stage::RateSmooth => seq![flag("skip-to-first"@, true)],
        Stage::CapsNv12 => seq![
            encoder::PropView {
                key: "caps"@,
                value: encoder::ValueView::Caps {
                    media: "video/x-raw"@,
                    fields: seq![("format"@, "NV12"@)],
                },
            },
        ],
        Stage::Encode => encoder::encoder_props_spec(e),
        Stage::ParseOut => encoder::parser_props_spec(encoder::bitstream_spec(e.kind)),
        Stage::QueueSrt => queue_spec(200, (6 * SECOND_NS) as u64, false),
        Stage::TsMux => seq![flag("enable-custom-mappings"@, true)],
        Stage::SrtSink => seq![
            encoder::PropView { key: "uri"@, value: encoder::ValueView::Text(srt_uri) },
            flag("wait-for-connection"@, false),
            flag("sync"@, false),
        ],
        Stage::QueuePreview => queue_spec(60, (2 * SECOND_NS) as u64, true),
        Stage::PreviewSink => seq![
            flag("emit-signals"@, true),
            flag("sync"@, false),
            encoder::PropView { key: "max-buffers"@, value: encoder::ValueView::U32(4) },
            flag("drop"@, true),
        ] + preview_caps_spec(encoder::bitstream_spec(e.kind)),
        _ => Seq::empty(),
    }
}

fn queue_props(max_buffers: u32, max_time_ns: u64, leaky: bool) -> (props: Vec<Prop>)
    ensures
        encoder::prop_views(props@) == queue_spec(max_buffers, max_time_ns, leaky),
{
    let mut props: Vec<Prop> = Vec::new();
    props.push(encoder::prop_u32("max-size-buffers", max_buffers));
    props.push(encoder::prop_u32("max-size-bytes", 0));
    props.push(encoder::prop_u64("max-size-time", max_time_ns));
    if leaky {
        props.push(encoder::prop_named("leaky", "downstream"));
    }
    assert(encoder::prop_views(props@) =~= queue_spec(max_buffers, max_time_ns, leaky));
    props
}

fn caps_prop(media: &str, fields: Vec<CapsField>) -> (p: Prop)
    ensures
        p@ == (encoder::PropView {
            key: "caps"@,
            value: encoder::ValueView::Caps {
                media: media@,
                fields: encoder::caps_views(fields@),
            },
        }),
{
    Prop { key: "caps".to_owned(), value: PropValue::Caps { media: media.to_owned(), fields } }
}

fn framed_caps(media: &str) -> (p: Prop)
    ensures
        p@ == (encoder::PropView {
            key: "caps"@,
            value: encoder::ValueView::Caps {
                media: media@,
                fields: seq![("stream-format"@, "byte-stream"@), ("alignment"@, "au"@)],
            },
        }),
{
    let mut fields: Vec<CapsField> = Vec::new();
    fields.push(encoder::caps_field("stream-format", "byte-stream"));
    fields.push(encoder::caps_field("alignment", "au"));
    assert(encoder::caps_views(fields@) =~= seq![
        ("stream-format"@, "byte-stream"@),
        ("alignment"@, "au"@),
    ]);
    caps_prop(media, fields)
}

/// The properties of an element.
pub fn stage_props(s: Stage, e: &EncoderSettings, srt_uri: &str) -> (props: Vec<Prop>)
    requires
        s == Stage::Encode && e.kind == encoder::EncoderKind::X264 ==> e.max_bitrate_kbps * 2
            <= u32::MAX,
    ensures
        encoder::prop_views(props@) == stage_props_spec(s, *e, srt_uri@),
{
    let mut props: Vec<Prop> = Vec::new();
    match s {
        Stage::Ingest => {
            props.push(encoder::prop_bool("is-live", true));
            props.push(encoder::prop_bool("do-timestamp", false));
            props.push(encoder::prop_bool("block", false));
            props.push(encoder::prop_named("stream-type", "stream"));
            props.push(encoder::prop_named("format", "time"));
            let fields: Vec<CapsField> = Vec::new();
            assert(encoder::caps_views(fields@) =~= Seq::<(Seq<char>, Seq<char>)>::empty());
            props.push(caps_prop("video/x-flv", fields));
        },
        Stage::RateSmooth => {
            props.push(encoder::prop_bool("skip-to-first", true));
        },
        Stage::CapsNv12 => {
            let mut fields: Vec<CapsField> = Vec::new();
            fields.push(encoder::caps_field("format", "NV12"));
            assert(encoder::caps_views(fields@) =~= seq![("format"@, "NV12"@)]);
            props.push(caps_prop("video/x-raw", fields));
        },
        Stage::Encode => {
            return encoder::encoder_props(e);
        },
        Stage::ParseOut => {
            return encoder::parser_props(e.kind.bitstream());
        },
        Stage::QueueSrt => {
            return queue_props(200, 6 * SECOND_NS, false);
        },
        Stage::TsMux => {
            props.push(encoder::prop_bool("enable-custom-mappings", true));
        },
        Stage::SrtSink => {
            props.push(encoder::prop_text("uri", srt_uri));
            props.push(encoder::prop_bool("wait-for-connection", false));
            props.push(encoder::prop_bool("sync", false));
        },
        Stage::QueuePreview => {
            return queue_props(60, 2 * SECOND_NS, true);
        },
        Stage::PreviewSink => {
            props.push(encoder::prop_bool("emit-signals", true));
            props.push(encoder::prop_bool("sync", false));
            props.push(encoder::prop_u32("max-buffers", 4));
            props.push(encoder::prop_bool("drop", true));
            match e.kind.bitstream() {
                Bitstream::H265 => {
                    props.push(framed_caps("video/x-h265"));
                },
                Bitstream::H264 => {
                    props.push(framed_caps("video/x-h264"));
                },
                Bitstream::Av1 => {},
            }
        },
        _ => {},
    }
    assert(encoder::prop_views(props@) =~= stage_props_spec(s, *e, srt_uri@));
    props
}

// ── links ───────────────────────────────────────────────────────────────────

/// The links, in the order in which they are made.
pub open spec fn links_spec(preview: bool) -> Seq<Link> {
    seq![
        Link { from: Stage::Ingest, to: Stage::Demux, join: Join::Static },
        Link { from: Stage::ParseIn, to: Stage::Decode, join: Join::Static },
        Link { from: Stage::Decode, to: Stage::RateSmooth, join: Join::Static },
        Link { from: Stage::RateSmooth, to: Stage::Convert, join: Join::Static },
        Link { from: Stage::Convert, to: Stage::CapsNv12, join: Join::Static },
        Link { from: Stage::CapsNv12, to: Stage::Encode, join: Join::Static },
        Link { from: Stage::Encode, to: Stage::ParseOut, join: Join::Static },
        Link { from: Stage::ParseOut, to: Stage::TeeEncoded, join: Join::Static },
        Link { from: Stage::TeeEncoded, to: Stage::QueueSrt, join: Join::TeePad },
        Link { from: Stage::QueueSrt, to: Stage::TsMux, join: Join::Static },
        Link { from: Stage::TsMux, to: Stage::SrtSink, join: Join::Static },
    ] + (if preview {
        seq![
            Link { from: Stage::TeeEncoded, to: Stage::QueuePreview, join: Join::TeePad },
            Link { from: Stage::QueuePreview, to: Stage::PreviewSink, join: Join::Static },
        ]
    } else {
        Seq::empty()
    }) + seq![Link { from: Stage::Demux, to: Stage::ParseIn, join: Join::DemuxPad }]
}

/// The links of the pipeline, with or without a preview branch.
pub fn pipeline_links(preview: bool) -> (links: Vec<Link>)
    ensures
        links@ == links_spec(preview),
{
    let mut links: Vec<Link> = vec![
        Link { from: Stage::Ingest, to: Stage::Demux, join: Join::Static },
        Link { from: Stage::ParseIn, to: Stage::Decode, join: Join::Static },
        Link { from: Stage::Decode, to: Stage::RateSmooth, join: Join::Static },
        Link { from: Stage::RateSmooth, to: Stage::Convert, join: Join::Static },
        Link { from: Stage::Convert, to: Stage::CapsNv12, join: Join::Static },
        Link { from: Stage::CapsNv12, to: Stage::Encode, join: Join::Static },
        Link { from: Stage::Encode, to: Stage::ParseOut, join: Join::Static },
        Link { from: Stage::ParseOut, to: Stage::TeeEncoded, join: Join::Static },
        Link { from: Stage::TeeEncoded, to: Stage::QueueSrt, join: Join::TeePad },
        Link { from: Stage::QueueSrt, to: Stage::TsMux, join: Join::Static },
        Link { from: Stage::TsMux, to: Stage::SrtSink, join: Join::Static },
    ];
    if preview {
        links.push(Link { from: Stage::TeeEncoded, to: Stage::QueuePreview, join: Join::TeePad });
        links.push(Link { from: Stage::QueuePreview, to: Stage::PreviewSink, join: Join::Static });
    }
    links.push(Link { from: Stage::Demux, to: Stage::ParseIn, join: Join::DemuxPad });
    assert(links@ =~= links_spec(preview));
    links
}

/// What to do with a pad that the demuxer has made.
#[derive(Debug, Clone, Copy, PartialEq, Eq, Structural)]
pub enum PadDecision {
    /// It carries no video.
    NotVideo,
    /// The parser is gone.
    ParserGone,
    /// The parser has no sink pad.
    NoSinkPad,
    /// The parser is linked already.
    AlreadyLinked,
    Link,
}

/// Decides on a pad that the demuxer has made, by its name and by the state of
/// the parser: whether it is there, whether it has a sink pad, and whether that
/// is linked.
pub fn on_demux_pad(name: &str, parser: bool, sink_pad: bool, linked: bool) -> (d: PadDecision)
    ensures
        d == if !text::begins_with(name@, "video"@) {
            PadDecision::NotVideo
        } else if !parser {
            PadDecision::ParserGone
        } else if !sink_pad {
            PadDecision::NoSinkPad
        } else if linked {
            PadDecision::AlreadyLinked
        } else {
            PadDecision::Link
        },
{
    if !text::starts_with(name, "video") {
        return PadDecision::NotVideo;
    }
    if !parser {
        return PadDecision::ParserGone;
    }
    if !sink_pad {
        return PadDecision::NoSinkPad;
    }
    if linked {
        return PadDecision::AlreadyLinked;
    }
    PadDecision::Link
}

// ── laws ────────────────────────────────────────────────────────────────────

/// `s` is one of the pipeline's elements.
pub open spec fn has_stage(preview: bool, s: Stage) -> bool {
    preview || !is_preview(s)
}

/// The element that feeds `s`.
pub open spec fn fed_by(s: Stage) -> Stage {
    match s {
        Stage::Ingest => Stage::Ingest,
        Stage::Demux => Stage::Ingest,
        Stage::ParseIn => Stage::Demux,
        Stage::Decode => Stage::ParseIn,
        Stage::RateSmooth => Stage::Decode,
        Stage::Convert => Stage::RateSmooth,
        Stage::CapsNv12 => Stage::Convert,
        Stage::Encode => Stage::CapsNv12,
        Stage::ParseOut => Stage::Encode,
        Stage::TeeEncoded => Stage::ParseOut,
        Stage::QueueSrt => Stage::TeeEncoded,
        Stage::TsMux => Stage::QueueSrt,
        Stage::SrtSink => Stage::TsMux,
        Stage::QueuePreview => Stage::TeeEncoded,
        Stage::PreviewSink => Stage::QueuePreview,
    }
}

/// The elements on the way from the source to `s`.
pub open spec fn depth(s: Stage) -> nat {
    match s {
        Stage::Ingest => 0,
        Stage::Demux => 1,
        Stage::ParseIn => 2,
        Stage::Decode => 3,
        Stage::RateSmooth => 4,
        Stage::Convert => 5,
        Stage::CapsNv12 => 6,
        Stage::Encode => 7,
        Stage::ParseOut => 8,
        Stage::TeeEncoded => 9,
        Stage::QueueSrt => 10,
        Stage::TsMux => 11,
        Stage::SrtSink => 12,
        Stage::QueuePreview => 10,
        Stage::PreviewSink => 11,
    }
}

/// The links join exactly the elements that are added: each but the source is
/// fed once, from one step nearer the source, so every element is reached.
pub proof fn law_every_element_is_fed_once(preview: bool)
    ensures
        forall|i: int|
            0 <= i < links_spec(preview).len() ==> {
                let l = #[trigger] links_spec(preview)[i];
                &&& has_stage(preview, l.from)
                &&& has_stage(preview, l.to)
                &&& l.from == fed_by(l.to)
                &&& depth(l.to) == depth(l.from) + 1
            },
        forall|i: int, j: int|
            0 <= i < j < links_spec(preview).len() ==> (#[trigger] links_spec(preview)[i]).to != (
            #[trigger] links_spec(preview)[j]).to,
        links_spec(preview).len() + 1 == stages_spec(preview).len(),
        forall|i: int, j: int|
            0 <= i < j < stages_spec(preview).len() ==> #[trigger] stages_spec(preview)[i]
                != #[trigger] stages_spec(preview)[j],
        forall|i: int|
            0 <= i < stages_spec(preview).len() ==> has_stage(
                preview,
                #[trigger] stages_spec(preview)[i],
            ),
{
}

/// The preview cannot hold the uplink up: its queue drops what is not taken,
/// while the uplink's queue keeps everything and is the deeper of the two.
pub proof fn law_branches_are_independent(e: EncoderSettings, srt_uri: Seq<char>)
    ensures
        stage_props_spec(Stage::QueuePreview, e, srt_uri).last() == (encoder::PropView {
            key: "leaky"@,
            value: encoder::ValueView::Named("downstream"@),
        }),
        forall|i: int|
            0 <= i < stage_props_spec(Stage::QueueSrt, e, srt_uri).len() ==> (
            #[trigger] stage_props_spec(Stage::QueueSrt, e, srt_uri)[i]).key != "leaky"@,
        links_spec(true).contains(
            Link { from: Stage::TeeEncoded, to: Stage::QueuePreview, join: Join::TeePad },
        ),
        links_spec(true).contains(
            Link { from: Stage::TeeEncoded, to: Stage::QueueSrt, join: Join::TeePad },
        ),
{
    reveal_strlit("leaky");
    reveal_strlit("max-size-buffers");
    reveal_strlit("max-size-bytes");
    reveal_strlit("max-size-time");
    assert("max-size-buffers"@.len() == 16);
    assert("max-size-bytes"@.len() == 14);
    assert("max-size-time"@.len() == 13);
    assert("leaky"@.len() == 5);
    assert(links_spec(true)[8] == (Link {
        from: Stage::TeeEncoded,
        to: Stage::QueueSrt,
        join: Join::TeePad,
    }));
    assert(links_spec(true)[11] == (Link {
        from: Stage::TeeEncoded,
        to: Stage::QueuePreview,
        join: Join::TeePad,
    }));
}

/// How each element is set up. The source is live and keeps the publisher's times; the
/// uplink's queue holds up to six seconds and drops nothing, the preview's up to two and
/// drops what is late; the uplink sends to the address that it is given, and waits
/// neither for the receiver nor for the clock.
pub proof fn law_elements_are_set_up(s: Stage, e: EncoderSettings, srt_uri: Seq<char>)
    ensures
        ({
            let props = stage_props_spec(s, e, srt_uri);
            match s {
                Stage::Ingest => {
                    &&& props.len() == 6
                    &&& encoder::sets(props, "is-live"@, encoder::ValueView::Bool(true))
                    &&& encoder::sets(props, "do-timestamp"@, encoder::ValueView::Bool(false))
                    &&& encoder::sets(props, "block"@, encoder::ValueView::Bool(false))
                    &&& encoder::sets(props, "stream-type"@, encoder::ValueView::Named("stream"@))
                    &&& encoder::sets(props, "format"@, encoder::ValueView::Named("time"@))
                    &&& encoder::sets(props, "caps"@, encoder::ValueView::Caps { media: "video/x-flv"@, fields: Seq::empty() })
                },
                Stage::RateSmooth => {
                    &&& props.len() == 1
                    &&& encoder::sets(props, "skip-to-first"@, encoder::ValueView::Bool(true))
                },
                Stage::CapsNv12 => {
                    &&& props.len() == 1
                    &&& encoder::sets(props, "caps"@, encoder::ValueView::Caps { media: "video/x-raw"@, fields: seq![("format"@, "NV12"@)] })
                },
                Stage::QueueSrt => {
                    &&& props.len() == 3
                    &&& encoder::sets(props, "max-size-buffers"@, encoder::ValueView::U32(200))
                    &&& encoder::sets(props, "max-size-bytes"@, encoder::ValueView::U32(0))
                    &&& encoder::sets(props, "max-size-time"@, encoder::ValueView::U64(6_000_000_000))
                },
                Stage::TsMux => {
                    &&& props.len() == 1
                    &&& encoder::sets(props, "enable-custom-mappings"@, encoder::ValueView::Bool(true))
                },
                Stage::SrtSink => {
                    &&& props.len() == 3
                    &&& encoder::sets(props, "uri"@, encoder::ValueView::Text(srt_uri))
                    &&& encoder::sets(props, "wait-for-connection"@, encoder::ValueView::Bool(false))
                    &&& encoder::sets(props, "sync"@, encoder::ValueView::Bool(false))
                },
                Stage::QueuePreview => {
                    &&& props.len() == 4
                    &&& encoder::sets(props, "max-size-buffers"@, encoder::ValueView::U32(60))
                    &&& encoder::sets(props, "max-size-bytes"@, encoder::ValueView::U32(0))
                    &&& encoder::sets(props, "max-size-time"@, encoder::ValueView::U64(2_000_000_000))
                    &&& encoder::sets(props, "leaky"@, encoder::ValueView::Named("downstream"@))
                },
                Stage::PreviewSink => {
                    &&& encoder::sets(props, "emit-signals"@, encoder::ValueView::Bool(true))
                    &&& encoder::sets(props, "sync"@, encoder::ValueView::Bool(false))
                    &&& encoder::sets(props, "max-buffers"@, encoder::ValueView::U32(4))
                    &&& encoder::sets(props, "drop"@, encoder::ValueView::Bool(true))
                    &&& match encoder::bitstream_spec(e.kind) {
                        Bitstream::H265 => props.len() == 5 && encoder::sets(props, "caps"@, encoder::ValueView::Caps { media: "video/x-h265"@, fields: seq![("stream-format"@, "byte-stream"@), ("alignment"@, "au"@)] }),
                        Bitstream::H264 => props.len() == 5 && encoder::sets(props, "caps"@, encoder::ValueView::Caps { media: "video/x-h264"@, fields: seq![("stream-format"@, "byte-stream"@), ("alignment"@, "au"@)] }),
                        Bitstream::Av1 => props.len() == 4,
                    }
                },
                Stage::Encode => props == encoder::encoder_props_spec(e),
                Stage::ParseOut => props == encoder::parser_props_spec(
                    encoder::bitstream_spec(e.kind),
                ),
                _ => props.len() == 0,
            }
        }),
{
    let props = stage_props_spec(s, e, srt_uri);
    match s {
        Stage::Ingest => {
            assert(props[0].key == "is-live"@);
            assert(props[1].key == "do-timestamp"@);
            assert(props[2].key == "block"@);
            assert(props[3].key == "stream-type"@);
            assert(props[4].key == "format"@);
            assert(props[5].key == "caps"@);
        },
        Stage::RateSmooth => {
            assert(props[0].key == "skip-to-first"@);
        },
        Stage::CapsNv12 => {
            assert(props[0].key == "caps"@);
        },
        Stage::QueueSrt => {
            assert(props[0].key == "max-size-buffers"@);
            assert(props[1].key == "max-size-bytes"@);
            assert(props[2].key == "max-size-time"@);
        },
        Stage::TsMux => {
            assert(props[0].key == "enable-custom-mappings"@);
        },
        Stage::SrtSink => {
            assert(props[0].key == "uri"@);
            assert(props[1].key == "wait-for-connection"@);
            assert(props[2].key == "sync"@);
        },
        Stage::QueuePreview => {
            assert(props[0].key == "max-size-buffers"@);
            assert(props[1].key == "max-size-bytes"@);
            assert(props[2].key == "max-size-time"@);
            assert(props[3].key == "leaky"@);
        },
        Stage::PreviewSink => {
            assert(props[0].key == "emit-signals"@);
            assert(props[1].key == "sync"@);
            assert(props[2].key == "max-buffers"@);
            assert(props[3].key == "drop"@);
            if encoder::bitstream_spec(e.kind) != Bitstream::Av1 {
                assert(props[4].key == "caps"@);
            }
        },
        _ => {},
    }
}

/// What each element is, and the name by which it is found and by which it reports.
pub proof fn law_elements_are_named(s: Stage, e: EncoderSettings)
    ensures
        ({
            let name = name_spec(s);
            let factory = stage_factory_spec(s, e);
            match s {
                Stage::Ingest => name == "ingest"@ && factory == "appsrc"@,
                Stage::Demux => name == "demux"@ && factory == "flvdemux"@,
                Stage::ParseIn => name == "parse_h264"@ && factory == "h264parse"@,
                Stage::Decode => name == "dec"@ && factory == "avdec_h264"@,
                Stage::RateSmooth => name == "rate_smooth"@ && factory == "videorate"@,
                Stage::Convert => name == "convert"@ && factory == "videoconvert"@,
                Stage::CapsNv12 => name == "caps_nv12"@ && factory == "capsfilter"@,
                Stage::Encode => name == "enc"@ && factory == encoder::factory_spec(e.kind),
                Stage::ParseOut => name == "parse_out"@ && factory == encoder::parser_spec(encoder::bitstream_spec(e.kind)),
                Stage::TeeEncoded => name == "tee_encoded"@ && factory == "tee"@,
                Stage::QueueSrt => name == "q_srt"@ && factory == "queue"@,
                Stage::TsMux => name == "ts"@ && factory == "mpegtsmux"@,
                Stage::SrtSink => name == "uplink"@ && factory == "srtsink"@,
                Stage::QueuePreview => name == "q_preview"@ && factory == "queue"@,
                Stage::PreviewSink => name == "preview"@ && factory == "appsink"@,
            }
        }),
{
}

/// Elements are added from the source on, the preview's last. All links are made at
/// once by the pads that there are, but for those of the tee, which makes its pads on
/// request, and the demuxer's, which comes last and waits for the stream.
pub proof fn law_links_are_made_in_time(preview: bool)
    ensures
        forall|i: int| 0 <= i < 13 ==> depth(#[trigger] stages_spec(preview)[i]) == i,
        stages_spec(preview).len() == if preview {
            15nat
        } else {
            13nat
        },
        preview ==> stages_spec(preview)[13] == Stage::QueuePreview && stages_spec(preview)[14]
            == Stage::PreviewSink,
        forall|i: int|
            0 <= i < links_spec(preview).len() ==> {
                let l = #[trigger] links_spec(preview)[i];
                &&& l.join == Join::TeePad <==> l.from == Stage::TeeEncoded
                &&& l.join == Join::DemuxPad <==> l.from == Stage::Demux
                &&& l.from == Stage::Demux <==> i == links_spec(preview).len() - 1
            },
{
}

} // verus!
