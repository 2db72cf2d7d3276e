//! The bus watch: what the running pipeline's messages lead to.
//!
//! The SRT element reconnects by itself, and a rebuild in its place would only
//! give the receiver one new connection after another. So its complaints mark the
//! uplink as lost and go no further; any other element's error fails the
//! pipeline.

use vstd::prelude::*;

use crate::events::CaptureEvent;
use crate::pipeline;
use crate::pipeline::PipelineError;
use crate::stats::UplinkState;
use crate::text;
use crate::topology;
use crate::topology::Stage;

verus! {

/// A message from the pipeline's bus. `src` is the name of the element that sent
/// it, or empty.
#[derive(Debug, Clone, PartialEq, Eq)]
pub enum BusMessage {
    EndOfStream,
    Error { src: String, text: String },
    Warning { src: String, text: String },
    /// A change of state: of the whole pipeline or of one element, to playing or
    /// to another state.
    StateChanged { of_pipeline: bool, playing: bool },
    Other,
}

/// Something for the bus watch to do.
#[derive(Debug, Clone, PartialEq, Eq)]
pub enum BusAction {
    /// Send a record to the session that is being captured.
    Record(CaptureEvent),
    /// Note the time as that of the last SRT warning.
    StampSrtWarning,
    /// Publish the state of the uplink.
    SetUplink(UplinkState),
    /// Report the failure to the pipeline task.
    Fail(PipelineError),
}

/// The element that sends is the SRT sink.
pub open spec fn from_srt(src: String) -> bool {
    src@ == topology::name_spec(Stage::SrtSink)
}

/// What a message leads to, in order, given the state of the uplink.
pub open spec fn bus_actions(msg: BusMessage, uplink: UplinkState) -> Seq<BusAction> {
    match msg {
        BusMessage::Error { src, text } => {
            let recorded = seq![
                BusAction::Record(CaptureEvent::BusError { src, error: text }),
            ];
            if !from_srt(src) {
                recorded.push(BusAction::Fail(PipelineError::Other { src, message: text }))
            } else if uplink == UplinkState::Connected {
                recorded.push(BusAction::StampSrtWarning).push(
                    BusAction::SetUplink(UplinkState::Lost),
                )
            } else {
                recorded.push(BusAction::StampSrtWarning)
            }
        },
        BusMessage::Warning { src, text } => {
            if !from_srt(src) {
                Seq::empty()
            } else if uplink == UplinkState::Connected {
                seq![
                    BusAction::StampSrtWarning,
                    BusAction::SetUplink(UplinkState::Lost),
                    BusAction::Record(CaptureEvent::SrtWarning { message: text }),
                ]
            } else {
                seq![BusAction::StampSrtWarning]
            }
        },
        BusMessage::StateChanged { of_pipeline, playing } => {
            if of_pipeline && playing {
                seq![BusAction::SetUplink(UplinkState::Connected)]
            } else {
                Seq::empty()
            }
        },
        BusMessage::EndOfStream | BusMessage::Other => Seq::empty(),
    }
}

/// Says what a message leads to.
pub fn on_bus_message(msg: BusMessage, uplink: UplinkState) -> (out: Vec<BusAction>)
    ensures
        out@ == bus_actions(msg, uplink),
{
    let mut out: Vec<BusAction> = Vec::new();
    match msg {
        BusMessage::Error { src, text } => {
            let srt = text::same_text(src.as_str(), topology::stage_name(Stage::SrtSink));
            out.push(
                BusAction::Record(
                    CaptureEvent::BusError { src: src.clone(), error: text.clone() },
                ),
            );
            if srt {
                out.push(BusAction::StampSrtWarning);
                if uplink == UplinkState::Connected {
                    out.push(BusAction::SetUplink(UplinkState::Lost));
                }
            } else {
                out.push(BusAction::Fail(PipelineError::Other { src, message: text }));
            }
        },
        BusMessage::Warning { src, text } => {
            if text::same_text(src.as_str(), topology::stage_name(Stage::SrtSink)) {
                out.push(BusAction::StampSrtWarning);
                if uplink == UplinkState::Connected {
                    out.push(BusAction::SetUplink(UplinkState::Lost));
                    out.push(BusAction::Record(CaptureEvent::SrtWarning { message: text }));
                }
            }
        },
        BusMessage::StateChanged { of_pipeline, playing } => {
            if of_pipeline && playing {
                out.push(BusAction::SetUplink(UplinkState::Connected));
            }
        },
        BusMessage::EndOfStream | BusMessage::Other => {},
    }
    assert(out@ =~= bus_actions(msg, uplink));
    out
}

// ── laws ────────────────────────────────────────────────────────────────────

/// The action reports a failure of the pipeline.
pub open spec fn is_failure(a: BusAction) -> bool {
    a is Fail
}

/// Nothing that the SRT sink sends fails the pipeline.
pub proof fn law_srt_trouble_is_not_fatal(src: String, text: String, uplink: UplinkState)
    requires
        from_srt(src),
    ensures
        forall|i: int|
            0 <= i < bus_actions(BusMessage::Error { src, text }, uplink).len() ==> !is_failure(
                #[trigger] bus_actions(BusMessage::Error { src, text }, uplink)[i],
            ),
        forall|i: int|
            0 <= i < bus_actions(BusMessage::Warning { src, text }, uplink).len() ==> !is_failure(
                #[trigger] bus_actions(BusMessage::Warning { src, text }, uplink)[i],
            ),
{
}

/// An error of any other element fails the pipeline once, with the element's name
/// and its message. No other message fails it.
pub proof fn law_other_errors_are_fatal(msg: BusMessage, uplink: UplinkState)
    ensures
        ({
            let failures = bus_actions(msg, uplink).filter(|a: BusAction| is_failure(a));
            match msg {
                BusMessage::Error { src, text } if !from_srt(src) => failures == seq![
                    BusAction::Fail(PipelineError::Other { src, message: text }),
                ],
                _ => failures.len() == 0,
            }
        }),
{
    reveal_with_fuel(Seq::filter, 4);
    let failing = |a: BusAction| is_failure(a);
    let all = bus_actions(msg, uplink);
    if all.len() > 0 {
        let one = all.drop_last();
        if one.len() > 0 {
            let two = one.drop_last();
            assert(two.len() > 0 ==> two.drop_last().len() == 0);
        }
    }
    assert(all.filter(failing) =~= match msg {
        BusMessage::Error { src, text } if !from_srt(src) => seq![
            BusAction::Fail(PipelineError::Other { src, message: text }),
        ],
        _ => Seq::empty(),
    });
}

/// The uplink is called lost by the bus only while it is connected, and connected
/// only when the pipeline plays.
pub proof fn law_uplink_moves(msg: BusMessage, uplink: UplinkState, next: UplinkState)
    requires
        bus_actions(msg, uplink).contains(BusAction::SetUplink(next)),
    ensures
        next == UplinkState::Lost || next == UplinkState::Connected,
        next == UplinkState::Lost ==> uplink == UplinkState::Connected,
        next == UplinkState::Connected ==> msg == (BusMessage::StateChanged {
            of_pipeline: true,
            playing: true,
        }),
{
}

/// An uplink that the SRT sink's trouble has marked as lost counts as connected
/// again at the first watchdog tick after enough time without more of it.
pub proof fn law_quiet_uplink_recovers(
    src: String,
    text: String,
    at_us: u64,
    v: pipeline::CoreView,
    r: pipeline::WatchdogReading,
)
    requires
        from_srt(src),
        at_us > 0,
        r.srt_warning_at_us == at_us,
        r.now_us - at_us > pipeline::SRT_WARN_DECAY_US,
        r.uplink == UplinkState::Lost,
    ensures
        bus_actions(BusMessage::Error { src, text }, UplinkState::Connected).contains(
            BusAction::SetUplink(UplinkState::Lost),
        ),
        bus_actions(BusMessage::Warning { src, text }, UplinkState::Connected).contains(
            BusAction::SetUplink(UplinkState::Lost),
        ),
        pipeline::watchdog_spec(v, r).1.len() >= 2,
        pipeline::watchdog_spec(v, r).1[0] == pipeline::Action::SetUplink(UplinkState::Connected),
        pipeline::watchdog_spec(v, r).1[1] == pipeline::Action::ClearSrtWarning,
{
    let e = bus_actions(BusMessage::Error { src, text }, UplinkState::Connected);
    assert(e[2] == BusAction::SetUplink(UplinkState::Lost));
    let w = bus_actions(BusMessage::Warning { src, text }, UplinkState::Connected);
    assert(w[1] == BusAction::SetUplink(UplinkState::Lost));
}

/// What each message leads to. Every error is recorded first, as it came. Trouble of the
/// SRT sink, which is the element named `uplink`, is stamped each time and marks a
/// connected uplink as lost; a warning is recorded where it does so. Another element's
/// warning, the end of the stream and all else lead to nothing, and a pipeline that
/// plays has its uplink connected.
pub proof fn law_what_a_message_leads_to(msg: BusMessage, uplink: UplinkState)
    ensures
        ({
            let out = bus_actions(msg, uplink);
            let connected = uplink == UplinkState::Connected;
            match msg {
                BusMessage::Error { src, text } => {
                    &&& out.len() >= 2
                    &&& out[0] == BusAction::Record(CaptureEvent::BusError { src, error: text })
                    &&& src@ != "uplink"@ ==> out.len() == 2 && out[1] == BusAction::Fail(
                        PipelineError::Other { src, message: text },
                    )
                    &&& src@ == "uplink"@ ==> out[1] == BusAction::StampSrtWarning
                    &&& src@ == "uplink"@ && connected ==> out.len() == 3 && out[2]
                        == BusAction::SetUplink(UplinkState::Lost)
                    &&& src@ == "uplink"@ && !connected ==> out.len() == 2
                },
                BusMessage::Warning { src, text } => {
                    &&& src@ != "uplink"@ ==> out.len() == 0
                    &&& src@ == "uplink"@ ==> out.len() >= 1 && out[0]
                        == BusAction::StampSrtWarning
                    &&& src@ == "uplink"@ && connected ==> {
                        &&& out.len() == 3
                        &&& out[1] == BusAction::SetUplink(UplinkState::Lost)
                        &&& out[2] == BusAction::Record(
                            CaptureEvent::SrtWarning { message: text },
                        )
                    }
                    &&& src@ == "uplink"@ && !connected ==> out.len() == 1
                },
                BusMessage::StateChanged { of_pipeline, playing } => {
                    &&& of_pipeline && playing ==> out == seq![
                        BusAction::SetUplink(UplinkState::Connected),
                    ]
                    &&& !of_pipeline || !playing ==> out.len() == 0
                },
                BusMessage::EndOfStream | BusMessage::Other => out.len() == 0,
            }
        }),
{
}

} // verus!
