//! Records of what happened in a session, as `events.jsonl` lists them.

use vstd::prelude::*;
use vstd::string::*;

verus! {

/// Something worth a record.
#[derive(Debug, Clone, PartialEq, Eq)]
pub enum CaptureEvent {
    SessionStarted { app: String, stream_key: String, peer: String, pipeline_built: bool },
    SessionEnded,
    ProcessShutdown,
    OperatorRestart,
    OperatorKeyframe,
    BitratePinned { kbps: u32 },
    BitrateUnpinned,
    BitrateChanged { from_kbps: u32, to_kbps: u32 },
    /// The running pipeline failed and is torn down.
    PipelineFailed { src: String, message: String },
    /// A chunk could not be handed to the pipeline.
    PushFailed { error: String },
    /// An element reported an error on the bus.
    BusError { src: String, error: String },
    SrtWarning { message: String },
    SrtReconnected { attempt: u32 },
    SrtRecovered { downtime_ms: u64 },
    DownlinkStale { frame_age_ms: u64 },
    DownlinkResumed,
}

/// The value of one detail of a record.
#[derive(Debug, Clone, PartialEq, Eq)]
pub enum FieldValue {
    Text(String),
    Number(u64),
    Flag(bool),
}

/// One detail of a record.
#[derive(Debug, Clone, PartialEq, Eq)]
pub struct Field {
    pub key: String,
    pub value: FieldValue,
}

/// A record on its way to the session that is being captured.
#[derive(Debug, Clone, PartialEq, Eq)]
pub struct CaptureEventReq {
    pub kind: String,
    pub details: Vec<Field>,
}

/// A detail's value, with text as characters.
pub enum ValueView {
    Text(Seq<char>),
    Number(u64),
    Flag(bool),
}

/// A detail, with text as characters.
pub struct FieldView {
    pub key: Seq<char>,
    pub value: ValueView,
}

impl View for FieldValue {
    type V = ValueView;

    open spec fn view(&self) -> ValueView {
        match self {
            FieldValue::Text(s) => ValueView::Text(s@),
            FieldValue::Number(n) => ValueView::Number(*n),
            FieldValue::Flag(b) => ValueView::Flag(*b),
        }
    }
}

impl View for Field {
    type V = FieldView;

    open spec fn view(&self) -> FieldView {
        FieldView { key: self.key@, value: self.value@ }
    }
}

/// The details of a list, with text as characters.
pub open spec fn field_views(fields: Seq<Field>) -> Seq<FieldView> {
    Seq::new(fields.len(), |i: int| fields[i]@)
}

/// The kind that a record is filed under.
pub open spec fn kind_of(e: CaptureEvent) -> Seq<char> {
    match e {
        CaptureEvent::SessionStarted { .. } => "session_started"@,
        CaptureEvent::SessionEnded => "session_ended"@,
        CaptureEvent::ProcessShutdown => "process_shutdown"@,
        CaptureEvent::OperatorRestart => "operator_restart"@,
        CaptureEvent::OperatorKeyframe => "operator_keyframe"@,
        CaptureEvent::BitratePinned { .. } => "bitrate_pinned"@,
        CaptureEvent::BitrateUnpinned => "bitrate_unpinned"@,
        CaptureEvent::BitrateChanged { .. } => "bitrate_changed"@,
        CaptureEvent::PipelineFailed { .. } => "pipeline_error"@,
        CaptureEvent::PushFailed { .. } => "pipeline_error"@,
        CaptureEvent::BusError { .. } => "pipeline_error"@,
        CaptureEvent::SrtWarning { .. } => "srt_warning"@,
        CaptureEvent::SrtReconnected { .. } => "srt_reconnected"@,
        CaptureEvent::SrtRecovered { .. } => "srt_recovered"@,
        CaptureEvent::DownlinkStale { .. } => "downlink_stale"@,
        CaptureEvent::DownlinkResumed => "downlink_resumed"@,
    }
}

/// Which way a change of bitrate goes.
pub open spec fn direction_of(from_kbps: u32, to_kbps: u32) -> Seq<char> {
    if to_kbps > from_kbps {
        "up"@
    } else {
        "down"@
    }
}

/// The details of a record, in order.
pub open spec fn details_of(e: CaptureEvent) -> Seq<FieldView> {
    let text = |key: Seq<char>, s: Seq<char>| FieldView { key, value: ValueView::Text(s) };
    let number = |key: Seq<char>, n: u64| FieldView { key, value: ValueView::Number(n) };
    match e {
        CaptureEvent::SessionStarted { app, stream_key, peer, pipeline_built } => seq![
            text("app"@, app@),
            text("stream_key"@, stream_key@),
            text("peer"@, peer@),
            FieldView { key: "pipeline_built"@, value: ValueView::Flag(pipeline_built) },
        ],
        CaptureEvent::BitratePinned { kbps } => seq![number("kbps"@, kbps as u64)],
        CaptureEvent::BitrateChanged { from_kbps, to_kbps } => seq![
            number("from_kbps"@, from_kbps as u64),
            number("to_kbps"@, to_kbps as u64),
            text("direction"@, direction_of(from_kbps, to_kbps)),
        ],
        CaptureEvent::PipelineFailed { src, message } => seq![
            text("message"@, src@ + ": "@ + message@),
        ],
        CaptureEvent::PushFailed { error } => seq![
            text("where"@, "push_flv"@),
            text("error"@, error@),
        ],
        CaptureEvent::BusError { src, error } => seq![text("src"@, src@), text("error"@, error@)],
        CaptureEvent::SrtWarning { message } => seq![text("message"@, message@)],
        CaptureEvent::SrtReconnected { attempt } => seq![number("attempt"@, attempt as u64)],
        CaptureEvent::SrtRecovered { downtime_ms } => seq![number("downtime_ms"@, downtime_ms)],
        CaptureEvent::DownlinkStale { frame_age_ms } => seq![number("frame_age_ms"@, frame_age_ms)],
        _ => Seq::empty(),
    }
}

fn text_of(key: &str, s: &str) -> (f: Field)
    ensures
        f@ == (FieldView { key: key@, value: ValueView::Text(s@) }),
{
    Field { key: key.to_owned(), value: FieldValue::Text(s.to_owned()) }
}

fn number_of(key: &str, n: u64) -> (f: Field)
    ensures
        f@ == (FieldView { key: key@, value: ValueView::Number(n) }),
{
    Field { key: key.to_owned(), value: FieldValue::Number(n) }
}

impl CaptureEvent {
    /// The kind that this record is filed under.
    pub fn kind(&self) -> (k: &'static str)
        ensures
            k@ == kind_of(*self),
    {
        match self {
            CaptureEvent::SessionStarted { .. } => "session_started",
            CaptureEvent::SessionEnded => "session_ended",
            CaptureEvent::ProcessShutdown => "process_shutdown",
            CaptureEvent::OperatorRestart => "operator_restart",
            CaptureEvent::OperatorKeyframe => "operator_keyframe",
            CaptureEvent::BitratePinned { .. } => "bitrate_pinned",
            CaptureEvent::BitrateUnpinned => "bitrate_unpinned",
            CaptureEvent::BitrateChanged { .. } => "bitrate_changed",
            CaptureEvent::PipelineFailed { .. } => "pipeline_error",
            CaptureEvent::PushFailed { .. } => "pipeline_error",
            CaptureEvent::BusError { .. } => "pipeline_error",
            CaptureEvent::SrtWarning { .. } => "srt_warning",
            CaptureEvent::SrtReconnected { .. } => "srt_reconnected",
            CaptureEvent::SrtRecovered { .. } => "srt_recovered",
            CaptureEvent::DownlinkStale { .. } => "downlink_stale",
            CaptureEvent::DownlinkResumed => "downlink_resumed",
        }
    }

    /// The details of this record.
    pub fn details(&self) -> (fields: Vec<Field>)
        ensures
            field_views(fields@) == details_of(*self),
    {
        let mut out: Vec<Field> = Vec::new();
        match self {
            CaptureEvent::SessionStarted { app, stream_key, peer, pipeline_built } => {
                out.push(text_of("app", app.as_str()));
                out.push(text_of("stream_key", stream_key.as_str()));
                out.push(text_of("peer", peer.as_str()));
                out.push(
                    Field {
                        key: "pipeline_built".to_owned(),
                        value: FieldValue::Flag(*pipeline_built),
                    },
                );
            },
            CaptureEvent::BitratePinned { kbps } => {
                out.push(number_of("kbps", *kbps as u64));
            },
            CaptureEvent::BitrateChanged { from_kbps, to_kbps } => {
                out.push(number_of("from_kbps", *from_kbps as u64));
                out.push(number_of("to_kbps", *to_kbps as u64));
                out.push(
                    text_of(
                        "direction",
                        if *to_kbps > *from_kbps {
                            "up"
                        } else {
                            "down"
                        },
                    ),
                );
            },
            CaptureEvent::PipelineFailed { src, message } => {
                let mut whole = src.as_str().to_owned();
                whole.append(": ");
                whole.append(message.as_str());
                out.push(text_of("message", whole.as_str()));
            },
            CaptureEvent::PushFailed { error } => {
                out.push(text_of("where", "push_flv"));
                out.push(text_of("error", error.as_str()));
            },
            CaptureEvent::BusError { src, error } => {
                out.push(text_of("src", src.as_str()));
                out.push(text_of("error", error.as_str()));
            },
            CaptureEvent::SrtWarning { message } => {
                out.push(text_of("message", message.as_str()));
            },
            CaptureEvent::SrtReconnected { attempt } => {
                out.push(number_of("attempt", *attempt as u64));
            },
            CaptureEvent::SrtRecovered { downtime_ms } => {
                out.push(number_of("downtime_ms", *downtime_ms));
            },
            CaptureEvent::DownlinkStale { frame_age_ms } => {
                out.push(number_of("frame_age_ms", *frame_age_ms));
            },
            _ => {},
        }
        assert(field_views(out@) =~= details_of(*self));
        out
    }

    /// This record, ready to be sent to the session that is being captured.
    pub fn to_request(&self) -> (r: CaptureEventReq)
        ensures
            r.kind@ == kind_of(*self),
            field_views(r.details@) == details_of(*self),
    {
        CaptureEventReq { kind: self.kind().to_owned(), details: self.details() }
    }
}

// ── laws ────────────────────────────────────────────────────────────────────

/// A record is filed under the name of what happened and says what is known of it, and
/// nothing else. A change of bitrate says both rates, and that it went up exactly where
/// the second is the higher.
pub proof fn law_records_say_what_happened(e: CaptureEvent)
    ensures
        ({
            let kind = kind_of(e);
            let details = details_of(e);
            match e {
                CaptureEvent::SessionStarted { app, stream_key, peer, pipeline_built } => {
                    &&& kind == "session_started"@
                    &&& details.len() == 4
                    &&& details[0].key == "app"@ && details[0].value == ValueView::Text(app@)
                    &&& details[1].key == "stream_key"@ && details[1].value == ValueView::Text(stream_key@)
                    &&& details[2].key == "peer"@ && details[2].value == ValueView::Text(peer@)
                    &&& details[3].key == "pipeline_built"@ && details[3].value == ValueView::Flag(pipeline_built)
                },
                CaptureEvent::SessionEnded => {
                    &&& kind == "session_ended"@
                    &&& details.len() == 0
                },
                CaptureEvent::ProcessShutdown => {
                    &&& kind == "process_shutdown"@
                    &&& details.len() == 0
                },
                CaptureEvent::OperatorRestart => {
                    &&& kind == "operator_restart"@
                    &&& details.len() == 0
                },
                CaptureEvent::OperatorKeyframe => {
                    &&& kind == "operator_keyframe"@
                    &&& details.len() == 0
                },
                CaptureEvent::BitratePinned { kbps } => {
                    &&& kind == "bitrate_pinned"@
                    &&& details.len() == 1
                    &&& details[0].key == "kbps"@ && details[0].value == ValueView::Number(kbps as u64)
                },
                CaptureEvent::BitrateUnpinned => {
                    &&& kind == "bitrate_unpinned"@
                    &&& details.len() == 0
                },
                CaptureEvent::PipelineFailed { src, message } => {
                    &&& kind == "pipeline_error"@
                    &&& details.len() == 1
                    &&& details[0].key == "message"@ && details[0].value == ValueView::Text(src@ + ": "@ + message@)
                },
                CaptureEvent::PushFailed { error } => {
                    &&& kind == "pipeline_error"@
                    &&& details.len() == 2
                    &&& details[0].key == "where"@ && details[0].value == ValueView::Text("push_flv"@)
                    &&& details[1].key == "error"@ && details[1].value == ValueView::Text(error@)
                },
                CaptureEvent::BusError { src, error } => {
                    &&& kind == "pipeline_error"@
                    &&& details.len() == 2
                    &&& details[0].key == "src"@ && details[0].value == ValueView::Text(src@)
                    &&& details[1].key == "error"@ && details[1].value == ValueView::Text(error@)
                },
                CaptureEvent::SrtWarning { message } => {
                    &&& kind == "srt_warning"@
                    &&& details.len() == 1
                    &&& details[0].key == "message"@ && details[0].value == ValueView::Text(message@)
                },
                CaptureEvent::SrtReconnected { attempt } => {
                    &&& kind == "srt_reconnected"@
                    &&& details.len() == 1
                    &&& details[0].key == "attempt"@ && details[0].value == ValueView::Number(attempt as u64)
                },
                CaptureEvent::SrtRecovered { downtime_ms } => {
                    &&& kind == "srt_recovered"@
                    &&& details.len() == 1
                    &&& details[0].key == "downtime_ms"@ && details[0].value == ValueView::Number(downtime_ms)
                },
                CaptureEvent::DownlinkStale { frame_age_ms } => {
                    &&& kind == "downlink_stale"@
                    &&& details.len() == 1
                    &&& details[0].key == "frame_age_ms"@ && details[0].value == ValueView::Number(frame_age_ms)
                },
                CaptureEvent::DownlinkResumed => {
                    &&& kind == "downlink_resumed"@
                    &&& details.len() == 0
                },
                CaptureEvent::BitrateChanged { from_kbps, to_kbps } => {
                    &&& kind == "bitrate_changed"@
                    &&& details.len() == 3
                    &&& details[0].key == "from_kbps"@
                    &&& details[0].value == ValueView::Number(from_kbps as u64)
                    &&& details[1].key == "to_kbps"@
                    &&& details[1].value == ValueView::Number(to_kbps as u64)
                    &&& details[2].key == "direction"@
                    &&& to_kbps > from_kbps ==> details[2].value == ValueView::Text("up"@)
                    &&& to_kbps <= from_kbps ==> details[2].value == ValueView::Text("down"@)
                },
            }
        }),
{
}

} // verus!
