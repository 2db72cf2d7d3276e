//! The life of the media pipeline: one per publisher session, torn down on
//! failure, and rebuilt with growing pauses until the session ends.
//!
//! [`PipelineCore`] takes each event and says what is to be done; the program
//! around it does so and hands back how the building of a pipeline went.

use bytes::Bytes;
use vstd::prelude::*;

use crate::buffer;
use crate::events::CaptureEvent;
use crate::flv;
use crate::stats::UplinkState;

verus! {

/// How long without a frame counts as stale input, in microseconds.
pub const NO_INPUT_THRESHOLD_US: u64 = 5_000_000;

/// How long SRT warnings must have stopped before the uplink counts as
/// recovered, in microseconds.
pub const SRT_WARN_DECAY_US: u64 = 3_500_000;

/// How far back a restart on command places the loss, so that no pause is left
/// to wait for, in microseconds.
pub const RESTART_BACKDATE_US: i128 = 60_000_000;

/// A failure of the running pipeline. Errors of the SRT element are not among
/// them, since that element reconnects by itself.
#[derive(Debug, Clone, PartialEq, Eq)]
pub enum PipelineError {
    Other { src: String, message: String },
}

/// What the operator can ask of the pipeline.
#[derive(Debug, Clone, Copy, PartialEq, Eq, Structural)]
pub enum PipelineCommand {
    /// Tear the pipeline down at once and rebuild it at the next reconnect tick.
    Restart,
}

/// Why a session's artifacts are closed.
#[derive(Debug, Clone, Copy, PartialEq, Eq, Structural)]
pub enum CloseReason {
    Restart,
    PublisherDisconnect,
    ProcessShutdown,
}

impl CloseReason {
    /// The reason as `metadata.json` gives it.
    pub fn label(self) -> (s: &'static str)
        ensures
            s@ == match self {
                CloseReason::Restart => "restart"@,
                CloseReason::PublisherDisconnect => "publisher_disconnect"@,
                CloseReason::ProcessShutdown => "process_shutdown"@,
            },
    {
        match self {
            CloseReason::Restart => "restart",
            CloseReason::PublisherDisconnect => "publisher_disconnect",
            CloseReason::ProcessShutdown => "process_shutdown",
        }
    }
}

/// Something for the program around the core to do.
#[derive(Debug, Clone, PartialEq, Eq)]
pub enum Action {
    /// Tear the running pipeline down.
    TearDown,
    /// Build and start a pipeline, and report how that went.
    BuildPipeline,
    /// Publish the state of the uplink.
    SetUplink(UplinkState),
    /// Hand the chunk that just came in to the running pipeline.
    PushChunk,
    /// Hand the new pipeline what [`PipelineCore::replay`] returns.
    Replay,
    /// Open the session's artifacts, and report how that went.
    OpenCapture,
    /// Append a record to the session's artifacts.
    Emit(CaptureEvent),
    /// Close the session's artifacts.
    CloseCapture(CloseReason),
    /// Tell preview clients that there is no stream.
    ClearPreview,
    /// Forget the time of the last SRT warning.
    ClearSrtWarning,
    CountReconnectAttempt,
    CountRecovery,
}

/// What the watchdog looks at. Moments are microseconds since the process
/// started; zero means never.
#[derive(Debug, Clone, Copy, PartialEq, Eq, Structural)]
pub struct WatchdogReading {
    pub now_us: u64,
    pub srt_warning_at_us: u64,
    pub uplink: UplinkState,
    pub publisher_connected: bool,
    pub last_frame_us: u64,
}

/// What the pipeline task remembers. Times are microseconds since the process
/// started; the time of a loss is signed because a restart places it in the
/// past.
#[derive(Debug, Clone)]
pub struct PipelineCore {
    /// A pipeline is running.
    pub session: bool,
    /// The session's artifacts are open.
    pub capture: bool,
    /// The last sequence-header tag of this session.
    pub cached_seq_header: Option<Bytes>,
    /// When the pipeline was lost, while a rebuild is due.
    pub srt_lost_at_us: Option<i128>,
    /// Rebuilds tried since then.
    pub srt_attempt: u32,
    /// Stale input has been recorded and has not resumed.
    pub input_stale_emitted: bool,
}

/// [`PipelineCore`] as its contracts see it.
pub struct CoreView {
    pub session: bool,
    pub capture: bool,
    pub cached: Option<Seq<u8>>,
    pub lost_at: Option<int>,
    pub attempt: nat,
    pub stale: bool,
}

impl View for PipelineCore {
    type V = CoreView;

    open spec fn view(&self) -> CoreView {
        CoreView {
            session: self.session,
            capture: self.capture,
            cached: match self.cached_seq_header {
                Some(b) => Some(buffer::bytes_content(b)),
                None => None,
            },
            lost_at: match self.srt_lost_at_us {
                Some(t) => Some(t as int),
                None => None,
            },
            attempt: self.srt_attempt as nat,
            stale: self.input_stale_emitted,
        }
    }
}

// ── the pauses between attempts ─────────────────────────────────────────────

/// Seconds to wait before the rebuild that follows `attempt` failed ones.
pub open spec fn backoff_spec(attempt: nat) -> nat {
    if attempt == 0 {
        1
    } else if attempt == 1 {
        2
    } else if attempt == 2 {
        4
    } else if attempt == 3 {
        8
    } else {
        15
    }
}

/// Seconds to wait before the next rebuild.
pub fn backoff(attempt: u32) -> (secs: u64)
    ensures
        secs == backoff_spec(attempt as nat),
{
    match attempt {
        0 => 1,
        1 => 2,
        2 => 4,
        3 => 8,
        _ => 15,
    }
}

// ── transitions ─────────────────────────────────────────────────────────────

/// A record, where artifacts are open to take it.
pub open spec fn emit(v: CoreView, e: CaptureEvent) -> Seq<Action> {
    if v.capture {
        seq![Action::Emit(e)]
    } else {
        Seq::empty()
    }
}

/// Tearing the pipeline down, where one is running.
pub open spec fn tear_down(v: CoreView) -> Seq<Action> {
    if v.session {
        seq![Action::TearDown]
    } else {
        Seq::empty()
    }
}

/// The core before any event.
pub open spec fn fresh() -> CoreView {
    CoreView {
        session: false,
        capture: false,
        cached: None,
        lost_at: None,
        attempt: 0,
        stale: false,
    }
}

/// A failure of the pipeline: ignored while the uplink is lost and a rebuild is
/// due already, since that is noise from the dying pipeline; else the pipeline goes
/// and a rebuild is due.
pub open spec fn error_spec(
    v: CoreView,
    src: String,
    message: String,
    uplink: UplinkState,
    now: u64,
) -> (CoreView, Seq<Action>) {
    if uplink == UplinkState::Lost && v.lost_at is Some {
        (v, Seq::empty())
    } else {
        (
            CoreView { session: false, lost_at: Some(now as int), attempt: 0, ..v },
            tear_down(v) + emit(v, CaptureEvent::PipelineFailed { src, message }) + seq![
                Action::SetUplink(UplinkState::Lost),
            ],
        )
    }
}

/// A restart on command: the pipeline goes, and the loss is placed so far back
/// that the rebuild is due at once.
pub open spec fn restart_spec(v: CoreView, now: u64) -> (CoreView, Seq<Action>) {
    (
        CoreView {
            session: false,
            lost_at: Some(now - RESTART_BACKDATE_US),
            attempt: 0,
            ..v
        },
        tear_down(v) + emit(v, CaptureEvent::OperatorRestart) + seq![
            Action::SetUplink(UplinkState::Lost),
        ],
    )
}

/// `a - b`, or zero where that would be negative.
pub open spec fn elapsed(a: u64, b: u64) -> u64 {
    if a >= b {
        (a - b) as u64
    } else {
        0
    }
}

/// SRT warnings made the uplink count as lost, and have stopped long enough.
pub open spec fn srt_recovered(r: WatchdogReading) -> bool {
    r.srt_warning_at_us > 0 && r.uplink == UplinkState::Lost && elapsed(
        r.now_us,
        r.srt_warning_at_us,
    ) > SRT_WARN_DECAY_US
}

/// The first half of a watchdog tick.
pub open spec fn recovery_spec(v: CoreView, r: WatchdogReading) -> Seq<Action> {
    if srt_recovered(r) {
        seq![
            Action::SetUplink(UplinkState::Connected),
            Action::ClearSrtWarning,
            Action::CountRecovery,
        ] + emit(
            v,
            CaptureEvent::SrtRecovered {
                downtime_ms: elapsed(r.now_us, r.srt_warning_at_us) / 1000,
            },
        )
    } else {
        Seq::empty()
    }
}

/// There is input to judge, and it is stale.
pub open spec fn input_stale(r: WatchdogReading) -> bool {
    r.publisher_connected && r.last_frame_us != 0 && elapsed(r.now_us, r.last_frame_us)
        >= NO_INPUT_THRESHOLD_US
}

/// There is input to judge, and it is fresh.
pub open spec fn input_fresh(r: WatchdogReading) -> bool {
    r.publisher_connected && r.last_frame_us != 0 && elapsed(r.now_us, r.last_frame_us)
        < NO_INPUT_THRESHOLD_US
}

/// A watchdog tick: SRT recovery, then a record when input goes stale or
/// resumes.
pub open spec fn watchdog_spec(v: CoreView, r: WatchdogReading) -> (CoreView, Seq<Action>) {
    let first = recovery_spec(v, r);
    if !r.publisher_connected {
        (CoreView { stale: false, ..v }, first)
    } else if input_stale(r) && !v.stale {
        (
            CoreView { stale: true, ..v },
            first + emit(
                v,
                CaptureEvent::DownlinkStale {
                    frame_age_ms: elapsed(r.now_us, r.last_frame_us) / 1000,
                },
            ),
        )
    } else if input_fresh(r) && v.stale {
        (CoreView { stale: false, ..v }, first + emit(v, CaptureEvent::DownlinkResumed))
    } else {
        (v, first)
    }
}

/// A rebuild is due: the pipeline is lost, there is a publisher, and the pause
/// is over.
pub open spec fn rebuild_due(v: CoreView, publisher_connected: bool, now: u64) -> bool {
    publisher_connected && (v.lost_at matches Some(t) && now - t >= backoff_spec(v.attempt)
        * 1_000_000)
}

/// A reconnect tick: where a rebuild is due, it is counted and begun.
pub open spec fn reconnect_spec(v: CoreView, publisher_connected: bool, now: u64) -> (
    CoreView,
    Seq<Action>,
) {
    if rebuild_due(v, publisher_connected, now) {
        (
            CoreView { attempt: v.attempt + 1, ..v },
            seq![
                Action::SetUplink(UplinkState::Connecting),
                Action::CountReconnectAttempt,
                Action::BuildPipeline,
            ],
        )
    } else {
        (v, Seq::empty())
    }
}

/// How a rebuild went: on success the new pipeline gets the replay; on failure
/// the pause starts over.
pub open spec fn rebuilt_spec(v: CoreView, built: bool, now: u64) -> (CoreView, Seq<Action>) {
    if built {
        (
            CoreView { session: true, lost_at: None, ..v },
            seq![Action::Replay, Action::CountRecovery] + emit(
                v,
                CaptureEvent::SrtReconnected { attempt: v.attempt as u32 },
            ),
        )
    } else {
        (
            CoreView { lost_at: Some(now as int), ..v },
            seq![Action::SetUplink(UplinkState::Lost)],
        )
    }
}

/// A session begins: whatever is left of the one before goes, and a pipeline is
/// built.
pub open spec fn started_spec(v: CoreView) -> (CoreView, Seq<Action>) {
    (
        fresh(),
        tear_down(v) + (if v.capture {
            seq![Action::CloseCapture(CloseReason::Restart)]
        } else {
            Seq::empty()
        }) + seq![Action::SetUplink(UplinkState::Connecting), Action::BuildPipeline],
    )
}

/// How the first build of a session went; artifacts are opened either way.
pub open spec fn start_built_spec(
    v: CoreView,
    built: bool,
    capture_enabled: bool,
    now: u64,
) -> (CoreView, Seq<Action>) {
    (
        if built {
            CoreView { session: true, ..v }
        } else {
            CoreView { lost_at: Some(now as int), attempt: 0, ..v }
        },
        (if built {
            Seq::empty()
        } else {
            seq![Action::SetUplink(UplinkState::Lost)]
        }) + (if capture_enabled {
            seq![Action::OpenCapture]
        } else {
            Seq::empty()
        }),
    )
}

/// A chunk from the publisher: kept where it is a sequence header, and pushed
/// where a pipeline is running.
pub open spec fn chunk_spec(v: CoreView, chunk: Seq<u8>) -> (CoreView, Seq<Action>) {
    (
        if flv::is_sequence_header(chunk) {
            CoreView { cached: Some(chunk), ..v }
        } else {
            v
        },
        if v.session {
            seq![Action::PushChunk]
        } else {
            Seq::empty()
        },
    )
}

/// The end of the artifacts, with a last record.
pub open spec fn close_capture(v: CoreView, e: CaptureEvent, reason: CloseReason) -> Seq<Action> {
    if v.capture {
        seq![Action::Emit(e), Action::CloseCapture(reason)]
    } else {
        Seq::empty()
    }
}

/// Telling preview clients, where there is a preview.
pub open spec fn clear_preview(has_preview: bool) -> Seq<Action> {
    if has_preview {
        seq![Action::ClearPreview]
    } else {
        Seq::empty()
    }
}

/// The session ends: everything about it goes.
pub open spec fn ended_spec(v: CoreView, has_preview: bool) -> (CoreView, Seq<Action>) {
    (
        fresh(),
        seq![Action::SetUplink(UplinkState::Idle)] + tear_down(v) + clear_preview(has_preview)
            + close_capture(v, CaptureEvent::SessionEnded, CloseReason::PublisherDisconnect),
    )
}

/// The process ends.
pub open spec fn shutdown_spec(v: CoreView, has_preview: bool) -> (CoreView, Seq<Action>) {
    (
        CoreView { session: false, capture: false, ..v },
        tear_down(v) + clear_preview(has_preview) + close_capture(
            v,
            CaptureEvent::ProcessShutdown,
            CloseReason::ProcessShutdown,
        ) + seq![Action::SetUplink(UplinkState::Idle)],
    )
}

impl CoreView {
    /// No rebuild is due while a pipeline is running.
    pub open spec fn wf(self) -> bool {
        self.lost_at is Some ==> !self.session
    }
}

impl PipelineCore {
    /// No rebuild is due while a pipeline is running, and a loss lies at most as
    /// far before the start of the process as a restart places it.
    pub open spec fn wf(&self) -> bool {
        &&& self@.wf()
        &&& self.srt_lost_at_us matches Some(t) ==> -RESTART_BACKDATE_US <= t <= u64::MAX
    }

    /// The core before any event.
    pub fn new() -> (c: PipelineCore)
        ensures
            c@ == fresh(),
            c.wf(),
    {
        PipelineCore {
            session: false,
            capture: false,
            cached_seq_header: None,
            srt_lost_at_us: None,
            srt_attempt: 0,
            input_stale_emitted: false,
        }
    }

    fn record(&self, out: &mut Vec<Action>, e: CaptureEvent)
        ensures
            final(out)@ == old(out)@ + emit(self@, e),
    {
        if self.capture {
            out.push(Action::Emit(e));
        }
        assert(out@ =~= old(out)@ + emit(self@, e));
    }

    fn drop_session(&mut self, out: &mut Vec<Action>)
        ensures
            final(out)@ == old(out)@ + tear_down(old(self)@),
            final(self)@ == (CoreView { session: false, ..old(self)@ }),
            final(self).srt_lost_at_us == old(self).srt_lost_at_us,
    {
        if self.session {
            out.push(Action::TearDown);
        }
        self.session = false;
        assert(out@ =~= old(out)@ + tear_down(old(self)@));
    }

    /// Whether a record posted by another task has artifacts to go to.
    pub fn takes_records(&self) -> (yes: bool)
        ensures
            yes == self@.capture,
    {
        self.capture
    }

    /// The running pipeline failed.
    pub fn on_pipeline_error(&mut self, err: PipelineError, uplink: UplinkState, now_us: u64) -> (out:
        Vec<Action>)
        requires
            old(self).wf(),
        ensures
            ({
                let PipelineError::Other { src, message } = err;
                (final(self)@, out@) == error_spec(old(self)@, src, message, uplink, now_us)
            }),
            final(self).wf(),
    {
        let mut out: Vec<Action> = Vec::new();
        if uplink == UplinkState::Lost && self.srt_lost_at_us.is_some() {
            return out;
        }
        let PipelineError::Other { src, message } = err;
        self.drop_session(&mut out);
        self.record(&mut out, CaptureEvent::PipelineFailed { src, message });
        out.push(Action::SetUplink(UplinkState::Lost));
        self.srt_lost_at_us = Some(now_us as i128);
        self.srt_attempt = 0;
        assert(out@ =~= error_spec(old(self)@, src, message, uplink, now_us).1);
        out
    }

    /// The operator asks for something.
    pub fn on_command(&mut self, cmd: PipelineCommand, now_us: u64) -> (out: Vec<Action>)
        requires
            old(self).wf(),
        ensures
            (final(self)@, out@) == restart_spec(old(self)@, now_us),
            final(self).wf(),
    {
        match cmd {
            PipelineCommand::Restart => {
                let mut out: Vec<Action> = Vec::new();
                self.drop_session(&mut out);
                self.record(&mut out, CaptureEvent::OperatorRestart);
                out.push(Action::SetUplink(UplinkState::Lost));
                self.srt_lost_at_us = Some(now_us as i128 - RESTART_BACKDATE_US);
                self.srt_attempt = 0;
                assert(out@ =~= restart_spec(old(self)@, now_us).1);
                out
            },
        }
    }

    /// The watchdog's timer fired.
    pub fn tick_watchdog(&mut self, r: &WatchdogReading) -> (out: Vec<Action>)
        requires
            old(self).wf(),
        ensures
            (final(self)@, out@) == watchdog_spec(old(self)@, *r),
            final(self).wf(),
    {
        let mut out: Vec<Action> = Vec::new();
        if r.srt_warning_at_us > 0 {
            let age_us: u64 = r.now_us.saturating_sub(r.srt_warning_at_us);
            if r.uplink == UplinkState::Lost && age_us > SRT_WARN_DECAY_US {
                out.push(Action::SetUplink(UplinkState::Connected));
                out.push(Action::ClearSrtWarning);
                out.push(Action::CountRecovery);
                self.record(&mut out, CaptureEvent::SrtRecovered { downtime_ms: age_us / 1000 });
            }
        }
        assert(out@ =~= recovery_spec(old(self)@, *r));

        if !r.publisher_connected {
            self.input_stale_emitted = false;
            return out;
        }
        if r.last_frame_us == 0 {
            return out;
        }
        let age_us: u64 = r.now_us.saturating_sub(r.last_frame_us);
        let stale = age_us >= NO_INPUT_THRESHOLD_US;
        if stale && !self.input_stale_emitted {
            self.input_stale_emitted = true;
            self.record(&mut out, CaptureEvent::DownlinkStale { frame_age_ms: age_us / 1000 });
        } else if !stale && self.input_stale_emitted {
            self.input_stale_emitted = false;
            self.record(&mut out, CaptureEvent::DownlinkResumed);
        }
        out
    }

    /// Whether a rebuild is due.
    pub fn rebuild_is_due(&self, publisher_connected: bool, now_us: u64) -> (due: bool)
        requires
            self.wf(),
        ensures
            due == rebuild_due(self@, publisher_connected, now_us),
    {
        let lost_at: i128 = match self.srt_lost_at_us {
            Some(t) => t,
            None => {
                return false;
            },
        };
        let wait_us: i128 = backoff(self.srt_attempt) as i128 * 1_000_000;
        publisher_connected && now_us as i128 - lost_at >= wait_us
    }

    /// The reconnect timer fired.
    pub fn tick_reconnect(&mut self, publisher_connected: bool, now_us: u64) -> (out: Vec<Action>)
        requires
            old(self).wf(),
            rebuild_due(old(self)@, publisher_connected, now_us) ==> old(self).srt_attempt
                < u32::MAX,
        ensures
            (final(self)@, out@) == reconnect_spec(old(self)@, publisher_connected, now_us),
            final(self).wf(),
    {
        let mut out: Vec<Action> = Vec::new();
        if !self.rebuild_is_due(publisher_connected, now_us) {
            return out;
        }
        self.srt_attempt = self.srt_attempt + 1;
        out.push(Action::SetUplink(UplinkState::Connecting));
        out.push(Action::CountReconnectAttempt);
        out.push(Action::BuildPipeline);
        out
    }

    /// A rebuild that a reconnect tick began has gone well or failed.
    pub fn on_reconnect_built(&mut self, built: bool, now_us: u64) -> (out: Vec<Action>)
        requires
            old(self).wf(),
            !old(self)@.session,
        ensures
            (final(self)@, out@) == rebuilt_spec(old(self)@, built, now_us),
            final(self).wf(),
    {
        let mut out: Vec<Action> = Vec::new();
        if built {
            out.push(Action::Replay);
            self.session = true;
            self.srt_lost_at_us = None;
            out.push(Action::CountRecovery);
            let attempt: u32 = self.srt_attempt;
            self.record(&mut out, CaptureEvent::SrtReconnected { attempt });
        } else {
            self.srt_lost_at_us = Some(now_us as i128);
            out.push(Action::SetUplink(UplinkState::Lost));
        }
        assert(out@ =~= rebuilt_spec(old(self)@, built, now_us).1);
        out
    }

    /// What a rebuilt pipeline is given first, so that it can make sense of the
    /// chunks that follow: the FLV header, then the session's sequence header.
    pub fn replay(&self) -> (chunks: Vec<Bytes>)
        ensures
            contents(chunks@) == replay_spec(self@),
    {
        let mut chunks: Vec<Bytes> = Vec::new();
        chunks.push(flv::flv_header_bytes());
        if let Some(tag) = &self.cached_seq_header {
            chunks.push(tag.clone());
        }
        assert(contents(chunks@) =~= replay_spec(self@));
        chunks
    }

    /// A publisher session begins.
    pub fn on_session_started(&mut self) -> (out: Vec<Action>)
        ensures
            (final(self)@, out@) == started_spec(old(self)@),
            final(self).wf(),
    {
        let mut out: Vec<Action> = Vec::new();
        self.cached_seq_header = None;
        self.srt_lost_at_us = None;
        self.srt_attempt = 0;
        self.input_stale_emitted = false;
        self.drop_session(&mut out);
        if self.capture {
            out.push(Action::CloseCapture(CloseReason::Restart));
        }
        self.capture = false;
        out.push(Action::SetUplink(UplinkState::Connecting));
        out.push(Action::BuildPipeline);
        assert(out@ =~= started_spec(old(self)@).1);
        out
    }

    /// The first build of a session has gone well or failed.
    pub fn on_start_built(&mut self, built: bool, capture_enabled: bool, now_us: u64) -> (out: Vec<
        Action,
    >)
        requires
            !old(self)@.session,
            old(self)@.lost_at is None,
        ensures
            (final(self)@, out@) == start_built_spec(
                old(self)@,
                built,
                capture_enabled,
                now_us,
            ),
            final(self).wf(),
    {
        let mut out: Vec<Action> = Vec::new();
        if built {
            self.session = true;
        } else {
            out.push(Action::SetUplink(UplinkState::Lost));
            self.srt_lost_at_us = Some(now_us as i128);
            self.srt_attempt = 0;
        }
        if capture_enabled {
            out.push(Action::OpenCapture);
        }
        assert(out@ =~= start_built_spec(old(self)@, built, capture_enabled, now_us).1);
        out
    }

    /// The session's artifacts were opened, or could not be.
    pub fn on_capture_opened(
        &mut self,
        opened: bool,
        app: String,
        stream_key: String,
        peer: String,
    ) -> (out: Vec<Action>)
        requires
            old(self).wf(),
        ensures
            final(self)@ == (CoreView { capture: opened, ..old(self)@ }),
            final(self).wf(),
            out@ == emit(
                final(self)@,
                CaptureEvent::SessionStarted {
                    app,
                    stream_key,
                    peer,
                    pipeline_built: old(self)@.session,
                },
            ),
    {
        let mut out: Vec<Action> = Vec::new();
        self.capture = opened;
        let pipeline_built = self.session;
        self.record(
            &mut out,
            CaptureEvent::SessionStarted { app, stream_key, peer, pipeline_built },
        );
        out
    }

    /// A chunk came from the publisher.
    pub fn on_flv_chunk(&mut self, chunk: &Bytes) -> (out: Vec<Action>)
        requires
            old(self).wf(),
        ensures
            (final(self)@, out@) == chunk_spec(old(self)@, buffer::bytes_content(*chunk)),
            final(self).wf(),
    {
        let mut out: Vec<Action> = Vec::new();
        if flv::is_avc_sequence_header_tag(chunk) {
            self.cached_seq_header = Some(chunk.clone());
        }
        if self.session {
            out.push(Action::PushChunk);
        }
        out
    }

    /// The running pipeline did not take a chunk.
    pub fn on_push_failed(&self, error: String) -> (out: Vec<Action>)
        ensures
            out@ == emit(self@, CaptureEvent::PushFailed { error }),
    {
        let mut out: Vec<Action> = Vec::new();
        self.record(&mut out, CaptureEvent::PushFailed { error });
        out
    }

    /// The publisher session ends.
    pub fn on_session_ended(&mut self, has_preview: bool) -> (out: Vec<Action>)
        ensures
            (final(self)@, out@) == ended_spec(old(self)@, has_preview),
            final(self).wf(),
    {
        let mut out: Vec<Action> = Vec::new();
        self.cached_seq_header = None;
        self.srt_lost_at_us = None;
        self.srt_attempt = 0;
        self.input_stale_emitted = false;
        out.push(Action::SetUplink(UplinkState::Idle));
        self.drop_session(&mut out);
        if has_preview {
            out.push(Action::ClearPreview);
        }
        if self.capture {
            out.push(Action::Emit(CaptureEvent::SessionEnded));
            out.push(Action::CloseCapture(CloseReason::PublisherDisconnect));
        }
        self.capture = false;
        assert(out@ =~= ended_spec(old(self)@, has_preview).1);
        out
    }

    /// The process ends.
    pub fn on_shutdown(&mut self, has_preview: bool) -> (out: Vec<Action>)
        requires
            old(self).wf(),
        ensures
            (final(self)@, out@) == shutdown_spec(old(self)@, has_preview),
            final(self).wf(),
    {
        let mut out: Vec<Action> = Vec::new();
        self.drop_session(&mut out);
        if has_preview {
            out.push(Action::ClearPreview);
        }
        if self.capture {
            out.push(Action::Emit(CaptureEvent::ProcessShutdown));
            out.push(Action::CloseCapture(CloseReason::ProcessShutdown));
        }
        self.capture = false;
        out.push(Action::SetUplink(UplinkState::Idle));
        assert(out@ =~= shutdown_spec(old(self)@, has_preview).1);
        out
    }
}

/// What each of a list of buffers holds.
pub open spec fn contents(chunks: Seq<Bytes>) -> Seq<Seq<u8>> {
    Seq::new(chunks.len(), |i: int| buffer::bytes_content(chunks[i]))
}

/// What a rebuilt pipeline is given first.
pub open spec fn replay_spec(v: CoreView) -> Seq<Seq<u8>> {
    match v.cached {
        Some(tag) => seq![flv::flv_header_spec(), tag],
        None => seq![flv::flv_header_spec()],
    }
}

// ── laws ────────────────────────────────────────────────────────────────────

/// The pauses never shrink, and after five failed attempts, half a minute in
/// all, they stay at 15 seconds.
pub proof fn law_backoff_settles(a: nat, b: nat)
    ensures
        a <= b ==> backoff_spec(a) <= backoff_spec(b),
        a >= 4 ==> backoff_spec(a) == 15,
        backoff_spec(0) + backoff_spec(1) + backoff_spec(2) + backoff_spec(3) + backoff_spec(4)
            == 30,
{
}

/// A restart on command rebuilds at the next reconnect tick, with no pause, as
/// long as there is a publisher.
pub proof fn law_restart_rebuilds_at_next_tick(v: CoreView, now: u64, later: u64)
    requires
        now <= later,
    ensures
        !restart_spec(v, now).0.session,
        reconnect_spec(restart_spec(v, now).0, true, later).1.last() == Action::BuildPipeline,
        reconnect_spec(restart_spec(v, now).0, true, later).1.len() == 3,
{
}

/// After a failure no rebuild begins before the pause is over; then it does.
pub proof fn law_rebuild_waits_for_the_pause(
    v: CoreView,
    src: String,
    message: String,
    uplink: UplinkState,
    now: u64,
    later: u64,
)
    requires
        uplink != UplinkState::Lost,
    ensures
        ({
            let lost = error_spec(v, src, message, uplink, now).0;
            &&& later - now < 1_000_000 ==> reconnect_spec(lost, true, later) == (
                lost,
                Seq::<Action>::empty(),
            )
            &&& later - now >= 1_000_000 ==> reconnect_spec(lost, true, later).1.last()
                == Action::BuildPipeline
        }),
{
}

/// A failure of a running pipeline gets it rebuilt, even where the sink's own trouble
/// has the uplink count as lost.
pub proof fn law_a_failed_pipeline_is_rebuilt(
    v: CoreView,
    src: String,
    message: String,
    uplink: UplinkState,
    now: u64,
)
    requires
        v.wf(),
        v.session,
    ensures
        ({
            let (after, actions) = error_spec(v, src, message, uplink, now);
            &&& actions[0] == Action::TearDown
            &&& !after.session
            &&& after.lost_at == Some(now as int)
            &&& after.attempt == 0
            &&& forall|later: u64|
                later - now >= backoff_spec(0) * 1_000_000 ==> #[trigger] rebuild_due(
                    after,
                    true,
                    later,
                )
        }),
{
}

/// While the uplink is lost and a rebuild is due, further failures change nothing
/// and do nothing.
pub proof fn law_errors_while_lost_are_ignored(
    v: CoreView,
    src: String,
    message: String,
    now: u64,
)
    requires
        v.lost_at is Some,
    ensures
        error_spec(v, src, message, UplinkState::Lost, now) == (v, Seq::<Action>::empty()),
{
}

/// Without a publisher nothing is rebuilt, however long the pipeline has been
/// lost.
pub proof fn law_no_rebuild_without_publisher(v: CoreView, now: u64)
    ensures
        reconnect_spec(v, false, now) == (v, Seq::<Action>::empty()),
{
}

/// Once the session has ended nothing is rebuilt, and nothing of it is left.
pub proof fn law_nothing_outlives_a_session(
    v: CoreView,
    has_preview: bool,
    connected: bool,
    now: u64,
)
    ensures
        ended_spec(v, has_preview).0 == fresh(),
        reconnect_spec(ended_spec(v, has_preview).0, connected, now) == (
            fresh(),
            Seq::<Action>::empty(),
        ),
{
}

/// What one action does to a running pipeline and to open artifacts, or nothing
/// where it does not fit: a pipeline is torn down or fed only while it runs and
/// built only while none does; artifacts are written or closed only while they
/// are open and opened only while they are not.
pub open spec fn perform(at: (bool, bool), a: Action) -> Option<(bool, bool)> {
    let (running, open) = at;
    match a {
        Action::TearDown => if running {
            Some((false, open))
        } else {
            None
        },
        Action::BuildPipeline => if running {
            None
        } else {
            Some(at)
        },
        Action::PushChunk | Action::Replay => if running {
            Some(at)
        } else {
            None
        },
        Action::OpenCapture => if open {
            None
        } else {
            Some(at)
        },
        Action::Emit(_) => if open {
            Some(at)
        } else {
            None
        },
        Action::CloseCapture(_) => if open {
            Some((running, false))
        } else {
            None
        },
        _ => Some(at),
    }
}

/// What a list of actions does, performed in order.
pub open spec fn perform_all(at: (bool, bool), actions: Seq<Action>) -> Option<(bool, bool)>
    decreases actions.len(),
{
    if actions.len() == 0 {
        Some(at)
    } else {
        match perform_all(at, actions.drop_last()) {
            Some(mid) => perform(mid, actions.last()),
            None => None,
        }
    }
}

proof fn lemma_perform_concat(at: (bool, bool), a: Seq<Action>, b: Seq<Action>)
    ensures
        perform_all(at, a + b) == match perform_all(at, a) {
            Some(mid) => perform_all(mid, b),
            None => None,
        },
    decreases b.len(),
{
    if b.len() == 0 {
        assert(a + b =~= a);
    } else {
        lemma_perform_concat(at, a, b.drop_last());
        assert((a + b).drop_last() =~= a + b.drop_last());
        assert((a + b).last() == b.last());
    }
}

proof fn lemma_perform_few(at: (bool, bool))
    ensures
        forall|s: Seq<Action>| s.len() == 0 ==> #[trigger] perform_all(at, s) == Some(at),
        forall|s: Seq<Action>|
            s.len() == 1 ==> #[trigger] perform_all(at, s) == perform(at, s[0]),
        forall|s: Seq<Action>|
            s.len() == 2 ==> #[trigger] perform_all(at, s) == match perform(at, s[0]) {
                Some(mid) => perform(mid, s[1]),
                None => None,
            },
{
    reveal_with_fuel(perform_all, 3);
}

/// The pipeline and artifacts that a core remembers.
pub open spec fn standing(v: CoreView) -> (bool, bool) {
    (v.session, v.capture)
}

/// Records are written only while artifacts are open, and change nothing that is
/// running or open.
pub proof fn law_records_need_artifacts(v: CoreView, e: CaptureEvent)
    ensures
        perform_all(standing(v), emit(v, e)) == Some(standing(v)),
{
    lemma_perform_few(standing(v));
}

/// After the first build of a session, good or failed, artifacts are opened only
/// where none are open, and the core remembers whether a pipeline runs.
pub proof fn law_opening_actions_fit(v: CoreView, built: bool, capture_enabled: bool, now: u64)
    requires
        !v.session,
        !v.capture,
    ensures
        perform_all((built, false), start_built_spec(v, built, capture_enabled, now).1) == Some(
            standing(start_built_spec(v, built, capture_enabled, now).0),
        ),
{
    lemma_perform_few((built, false));
}

/// On errors, restarts, session starts, session ends and shutdown, the actions fit
/// what is running and what is open, and leave both as the core remembers them:
/// never two pipelines, never a record without artifacts, and artifacts closed
/// once.
pub proof fn law_actions_fit(
    v: CoreView,
    src: String,
    message: String,
    uplink: UplinkState,
    now: u64,
    has_preview: bool,
)
    requires
        v.wf(),
    ensures
        perform_all(standing(v), error_spec(v, src, message, uplink, now).1) == Some(
            standing(error_spec(v, src, message, uplink, now).0),
        ),
        perform_all(standing(v), restart_spec(v, now).1) == Some(standing(restart_spec(v, now).0)),
        perform_all(standing(v), started_spec(v).1) == Some(standing(started_spec(v).0)),
        perform_all(standing(v), ended_spec(v, has_preview).1) == Some(
            standing(ended_spec(v, has_preview).0),
        ),
        perform_all(standing(v), shutdown_spec(v, has_preview).1) == Some(
            standing(shutdown_spec(v, has_preview).0),
        ),
{
    let at = standing(v);
    let gone = (false, v.capture);
    lemma_perform_few(at);
    lemma_perform_few(gone);
    lemma_perform_few((false, false));
    let lost = seq![Action::SetUplink(UplinkState::Lost)];
    let failed = emit(v, CaptureEvent::PipelineFailed { src, message });
    lemma_perform_concat(at, tear_down(v), failed);
    lemma_perform_concat(at, tear_down(v) + failed, lost);
    let restarted = emit(v, CaptureEvent::OperatorRestart);
    lemma_perform_concat(at, tear_down(v), restarted);
    lemma_perform_concat(at, tear_down(v) + restarted, lost);
    let closed = if v.capture {
        seq![Action::CloseCapture(CloseReason::Restart)]
    } else {
        Seq::empty()
    };
    let build = seq![Action::SetUplink(UplinkState::Connecting), Action::BuildPipeline];
    lemma_perform_concat(at, tear_down(v), closed);
    lemma_perform_concat(at, tear_down(v) + closed, build);
    let idle = seq![Action::SetUplink(UplinkState::Idle)];
    let preview = clear_preview(has_preview);
    let end = close_capture(v, CaptureEvent::SessionEnded, CloseReason::PublisherDisconnect);
    lemma_perform_concat(at, idle, tear_down(v));
    lemma_perform_concat(at, idle + tear_down(v), preview);
    lemma_perform_concat(at, idle + tear_down(v) + preview, end);
    let stop = close_capture(v, CaptureEvent::ProcessShutdown, CloseReason::ProcessShutdown);
    lemma_perform_concat(at, tear_down(v), preview);
    lemma_perform_concat(at, tear_down(v) + preview, stop);
    lemma_perform_concat(at, tear_down(v) + preview + stop, idle);
}

/// The same holds of the timers, of a chunk, and of how a rebuild went.
pub proof fn law_timer_actions_fit(
    v: CoreView,
    r: WatchdogReading,
    connected: bool,
    now: u64,
    chunk: Seq<u8>,
)
    requires
        v.wf(),
    ensures
        perform_all(standing(v), watchdog_spec(v, r).1) == Some(standing(watchdog_spec(v, r).0)),
        perform_all(standing(v), reconnect_spec(v, connected, now).1) == Some(
            standing(reconnect_spec(v, connected, now).0),
        ),
        perform_all(standing(v), chunk_spec(v, chunk).1) == Some(standing(chunk_spec(v, chunk).0)),
        !v.session ==> perform_all((true, v.capture), rebuilt_spec(v, true, now).1) == Some(
            standing(rebuilt_spec(v, true, now).0),
        ),
        !v.session ==> perform_all(standing(v), rebuilt_spec(v, false, now).1) == Some(
            standing(rebuilt_spec(v, false, now).0),
        ),
{
    let at = standing(v);
    lemma_perform_few(at);
    lemma_perform_few((true, v.capture));
    let three = seq![
        Action::SetUplink(UplinkState::Connected),
        Action::ClearSrtWarning,
        Action::CountRecovery,
    ];
    assert(three =~= seq![Action::SetUplink(UplinkState::Connected), Action::ClearSrtWarning]
        + seq![Action::CountRecovery]);
    lemma_perform_concat(
        at,
        seq![Action::SetUplink(UplinkState::Connected), Action::ClearSrtWarning],
        seq![Action::CountRecovery],
    );
    let down = CaptureEvent::SrtRecovered {
        downtime_ms: elapsed(r.now_us, r.srt_warning_at_us) / 1000,
    };
    lemma_perform_concat(at, three, emit(v, down));
    let first = recovery_spec(v, r);
    assert(perform_all(at, first) == Some(at));
    let stale = CaptureEvent::DownlinkStale {
        frame_age_ms: elapsed(r.now_us, r.last_frame_us) / 1000,
    };
    lemma_perform_concat(at, first, emit(v, stale));
    lemma_perform_concat(at, first, emit(v, CaptureEvent::DownlinkResumed));
    let build = seq![
        Action::SetUplink(UplinkState::Connecting),
        Action::CountReconnectAttempt,
        Action::BuildPipeline,
    ];
    assert(build =~= seq![Action::SetUplink(UplinkState::Connecting), Action::CountReconnectAttempt]
        + seq![Action::BuildPipeline]);
    lemma_perform_concat(
        at,
        seq![Action::SetUplink(UplinkState::Connecting), Action::CountReconnectAttempt],
        seq![Action::BuildPipeline],
    );
    lemma_perform_concat(
        (true, v.capture),
        seq![Action::Replay, Action::CountRecovery],
        emit(v, CaptureEvent::SrtReconnected { attempt: v.attempt as u32 }),
    );
}

/// What can happen within a session.
pub enum SessionEvent {
    Failed { src: String, message: String, uplink: UplinkState, now: u64 },
    Restart { now: u64 },
    Watchdog { reading: WatchdogReading },
    Reconnect { connected: bool, now: u64 },
    Rebuilt { built: bool, now: u64 },
    StartBuilt { built: bool, capture_enabled: bool, now: u64 },
    CaptureOpened { opened: bool },
    Chunk { bytes: Seq<u8> },
}

/// The core after one event within a session.
pub open spec fn step(v: CoreView, e: SessionEvent) -> CoreView {
    match e {
        SessionEvent::Failed { src, message, uplink, now } => error_spec(
            v,
            src,
            message,
            uplink,
            now,
        ).0,
        SessionEvent::Restart { now } => restart_spec(v, now).0,
        SessionEvent::Watchdog { reading } => watchdog_spec(v, reading).0,
        SessionEvent::Reconnect { connected, now } => reconnect_spec(v, connected, now).0,
        SessionEvent::Rebuilt { built, now } => rebuilt_spec(v, built, now).0,
        SessionEvent::StartBuilt { built, capture_enabled, now } => start_built_spec(
            v,
            built,
            capture_enabled,
            now,
        ).0,
        SessionEvent::CaptureOpened { opened } => CoreView { capture: opened, ..v },
        SessionEvent::Chunk { bytes } => chunk_spec(v, bytes).0,
    }
}

/// The core after a run of events within a session.
pub open spec fn run(v: CoreView, events: Seq<SessionEvent>) -> CoreView
    decreases events.len(),
{
    if events.len() == 0 {
        v
    } else {
        step(run(v, events.drop_last()), events.last())
    }
}

/// The last sequence-header tag among the chunks of a run.
pub open spec fn last_sequence_header(events: Seq<SessionEvent>) -> Option<Seq<u8>>
    decreases events.len(),
{
    if events.len() == 0 {
        None
    } else {
        match events.last() {
            SessionEvent::Chunk { bytes } if flv::is_sequence_header(bytes) => Some(bytes),
            _ => last_sequence_header(events.drop_last()),
        }
    }
}

proof fn lemma_cached_is_last(v: CoreView, events: Seq<SessionEvent>)
    requires
        v.cached is None,
    ensures
        run(v, events).cached == last_sequence_header(events),
    decreases events.len(),
{
    if events.len() > 0 {
        lemma_cached_is_last(v, events.drop_last());
    }
}

/// Whatever happens in a session, a rebuilt pipeline is given the FLV header and
/// then the last sequence header that the publisher sent in that session.
pub proof fn law_replay_restores_the_session(before: CoreView, events: Seq<SessionEvent>)
    ensures
        replay_spec(run(started_spec(before).0, events)) == match last_sequence_header(events) {
            Some(tag) => seq![flv::flv_header_spec(), tag],
            None => seq![flv::flv_header_spec()],
        },
{
    lemma_cached_is_last(started_spec(before).0, events);
}

/// The records of stale input that a run of watchdog ticks makes.
pub open spec fn stale_records(v: CoreView, readings: Seq<WatchdogReading>) -> nat
    decreases readings.len(),
{
    if readings.len() == 0 {
        0
    } else {
        let next = watchdog_spec(v, readings[0]).0;
        stale_records(next, readings.skip(1)) + if !v.stale && next.stale {
            1nat
        } else {
            0nat
        }
    }
}

/// Input that stays stale is recorded at most once, however many ticks see it.
pub proof fn law_stale_input_is_recorded_once(v: CoreView, readings: Seq<WatchdogReading>)
    requires
        forall|i: int| 0 <= i < readings.len() ==> input_stale(#[trigger] readings[i]),
    ensures
        stale_records(v, readings) <= if v.stale {
            0nat
        } else {
            1nat
        },
    decreases readings.len(),
{
    if readings.len() > 0 {
        assert(input_stale(readings[0]));
        assert forall|i: int| 0 <= i < readings.skip(1).len() implies input_stale(
            #[trigger] readings.skip(1)[i],
        ) by {
            assert(input_stale(readings[i + 1]));
        }
        law_stale_input_is_recorded_once(watchdog_spec(v, readings[0]).0, readings.skip(1));
    }
}

/// A record of stale input is made exactly when input turns stale, and one of
/// resumed input exactly when recorded staleness ends with a fresh frame.
pub proof fn law_stale_and_resumed_pair_up(v: CoreView, r: WatchdogReading)
    requires
        v.capture,
    ensures
        ({
            let (next, actions) = watchdog_spec(v, r);
            &&& (!v.stale && next.stale) <==> (input_stale(r) && !v.stale)
            &&& (!v.stale && next.stale) ==> actions.last() == Action::Emit(
                CaptureEvent::DownlinkStale {
                    frame_age_ms: elapsed(r.now_us, r.last_frame_us) / 1000,
                },
            )
            &&& (v.stale && input_fresh(r)) ==> !next.stale && actions.last() == Action::Emit(
                CaptureEvent::DownlinkResumed,
            )
        }),
{
}

// ── what each event does ────────────────────────────────────────────────────

/// The chunks that are pushed into a pipeline over a run of chunks.
pub open spec fn pushed(v: CoreView, chunks: Seq<Seq<u8>>) -> Seq<Seq<u8>>
    decreases chunks.len(),
{
    if chunks.len() == 0 {
        Seq::empty()
    } else {
        let (next, actions) = chunk_spec(v, chunks[0]);
        let rest = pushed(next, chunks.skip(1));
        if actions.contains(Action::PushChunk) {
            seq![chunks[0]] + rest
        } else {
            rest
        }
    }
}

/// While a pipeline runs it is given every chunk that the publisher sends, whatever the
/// chunk holds, in order and once; while none runs, chunks do nothing but be
/// remembered.
pub proof fn law_every_chunk_is_pushed(v: CoreView, chunks: Seq<Seq<u8>>)
    ensures
        v.session ==> pushed(v, chunks) == chunks,
        !v.session ==> pushed(v, chunks).len() == 0,
        forall|c: Seq<u8>| (#[trigger] chunk_spec(v, c)).1.len() == if v.session {
            1nat
        } else {
            0nat
        },
        forall|c: Seq<u8>| v.session ==> (#[trigger] chunk_spec(v, c)).1[0] == Action::PushChunk,
    decreases chunks.len(),
{
    if chunks.len() > 0 {
        let (next, actions) = chunk_spec(v, chunks[0]);
        law_every_chunk_is_pushed(next, chunks.skip(1));
        if v.session {
            assert(actions[0] == Action::PushChunk);
            assert(pushed(v, chunks) =~= chunks);
        }
    }
}

/// A chunk changes nothing that is remembered but the sequence header, and that only if
/// it is a video tag (type 9) whose payload begins with an AVC keyframe byte and a zero.
pub proof fn law_chunks_only_leave_a_header(v: CoreView, chunk: Seq<u8>)
    ensures
        ({
            let after = chunk_spec(v, chunk).0;
            &&& after.session == v.session
            &&& after.capture == v.capture
            &&& after.lost_at == v.lost_at
            &&& after.attempt == v.attempt
            &&& after.stale == v.stale
            &&& after.cached == if chunk.len() >= 13 && chunk[0] == 9 && chunk[11] == 0x17
                && chunk[12] == 0 {
                Some(chunk)
            } else {
                v.cached
            }
        }),
{
}

/// The pause starts at a second and doubles with each failed rebuild, up to eight
/// seconds; from then on it is fifteen.
pub proof fn law_pauses_double(attempt: nat)
    ensures
        backoff_spec(0) == 1,
        attempt < 3 ==> backoff_spec(attempt + 1) == 2 * backoff_spec(attempt),
        attempt > 3 ==> backoff_spec(attempt) == 15,
{
}

/// The earliest moment at which a rebuild begins, for a pipeline that was lost at `t`
/// and has been tried `attempt` times, is `t` and the pause: not a microsecond sooner,
/// and then without fail where there is a publisher. Beginning it counts one attempt
/// and leaves all else as it is.
pub proof fn law_rebuilds_keep_the_schedule(v: CoreView, t: int, connected: bool, now: u64)
    requires
        v.lost_at == Some(t),
    ensures
        ({
            let (after, actions) = reconnect_spec(v, connected, now);
            let seconds: int = if v.attempt == 0 {
                1
            } else if v.attempt == 1 {
                2
            } else if v.attempt == 2 {
                4
            } else if v.attempt == 3 {
                8
            } else {
                15
            };
            if connected && now >= t + seconds * 1_000_000 {
                &&& actions.len() == 3
                &&& actions[0] == Action::SetUplink(UplinkState::Connecting)
                &&& actions[1] == Action::CountReconnectAttempt
                &&& actions[2] == Action::BuildPipeline
                &&& after.attempt == v.attempt + 1
                &&& after.lost_at == v.lost_at
                &&& after.session == v.session
                &&& after.capture == v.capture
                &&& after.cached == v.cached
                &&& after.stale == v.stale
            } else {
                actions.len() == 0 && after == v
            }
        }),
{
}

/// Nothing is rebuilt that is not lost.
pub proof fn law_what_is_not_lost_is_not_rebuilt(v: CoreView, connected: bool, now: u64)
    requires
        v.lost_at is None,
    ensures
        reconnect_spec(v, connected, now) == (v, Seq::<Action>::empty()),
{
}

/// A rebuild that fails starts the next pause at that moment and keeps the count; one
/// that succeeds ends the loss, runs the replay before anything else, and is recorded
/// with the number of attempts.
pub proof fn law_rebuilds_end_or_wait(v: CoreView, now: u64)
    ensures
        ({
            let (failed, said) = rebuilt_spec(v, false, now);
            &&& failed.lost_at == Some(now as int)
            &&& failed.session == v.session
            &&& failed.attempt == v.attempt
            &&& failed.cached == v.cached
            &&& failed.capture == v.capture
            &&& failed.stale == v.stale
            &&& said.len() == 1
            &&& said[0] == Action::SetUplink(UplinkState::Lost)
        }),
        ({
            let (up, done) = rebuilt_spec(v, true, now);
            &&& up.session
            &&& up.lost_at is None
            &&& up.attempt == v.attempt
            &&& up.cached == v.cached
            &&& up.capture == v.capture
            &&& up.stale == v.stale
            &&& done.len() == 2 + count(v.capture)
            &&& done[0] == Action::Replay
            &&& done[1] == Action::CountRecovery
            &&& v.capture ==> done[2] == Action::Emit(
                CaptureEvent::SrtReconnected { attempt: v.attempt as u32 },
            )
        }),
{
}

/// One for a thing that is there, zero for one that is not.
pub open spec fn count(there: bool) -> nat {
    if there {
        1
    } else {
        0
    }
}

/// A failure that counts tears a running pipeline down first, is recorded with the
/// element and its message where artifacts are open, and ends with the uplink lost; it
/// keeps the artifacts and the sequence header for the rebuild.
pub proof fn law_failures_are_recorded(
    v: CoreView,
    src: String,
    message: String,
    uplink: UplinkState,
    now: u64,
)
    requires
        uplink != UplinkState::Lost || v.lost_at is None,
    ensures
        ({
            let (after, actions) = error_spec(v, src, message, uplink, now);
            let n = actions.len();
            &&& n == 1 + count(v.session) + count(v.capture)
            &&& v.session ==> actions[0] == Action::TearDown
            &&& v.capture ==> actions[n - 2] == Action::Emit(
                CaptureEvent::PipelineFailed { src, message },
            )
            &&& actions[n - 1] == Action::SetUplink(UplinkState::Lost)
            &&& !after.session
            &&& after.lost_at == Some(now as int)
            &&& after.attempt == 0
            &&& after.capture == v.capture
            &&& after.cached == v.cached
            &&& after.stale == v.stale
        }),
{
}

/// A restart on command does the same, recorded as the operator's, and leaves no pause
/// to wait for, however many attempts came before.
pub proof fn law_restarts_are_recorded(v: CoreView, now: u64)
    ensures
        ({
            let (after, actions) = restart_spec(v, now);
            let n = actions.len();
            &&& n == 1 + count(v.session) + count(v.capture)
            &&& v.session ==> actions[0] == Action::TearDown
            &&& v.capture ==> actions[n - 2] == Action::Emit(CaptureEvent::OperatorRestart)
            &&& actions[n - 1] == Action::SetUplink(UplinkState::Lost)
            &&& !after.session
            &&& after.lost_at matches Some(t) && now - t == 60_000_000
            &&& after.attempt == 0
            &&& after.capture == v.capture
            &&& after.cached == v.cached
            &&& after.stale == v.stale
        }),
{
}

/// A session begins with nothing of the one before: its pipeline is torn down, its
/// artifacts are closed as restarted, and only then a pipeline is built.
pub proof fn law_sessions_begin_clean(v: CoreView)
    ensures
        ({
            let (after, actions) = started_spec(v);
            let n = actions.len();
            &&& n == 2 + count(v.session) + count(v.capture)
            &&& v.session ==> actions[0] == Action::TearDown
            &&& v.capture ==> actions[n - 3] == Action::CloseCapture(CloseReason::Restart)
            &&& actions[n - 2] == Action::SetUplink(UplinkState::Connecting)
            &&& actions[n - 1] == Action::BuildPipeline
            &&& !after.session && !after.capture && !after.stale
            &&& after.cached is None && after.lost_at is None && after.attempt == 0
        }),
{
}

/// The first build of a session runs or is lost at that moment, and artifacts are opened
/// in both cases, if they are wanted.
pub proof fn law_first_builds(v: CoreView, built: bool, capture_enabled: bool, now: u64)
    ensures
        ({
            let (after, actions) = start_built_spec(v, built, capture_enabled, now);
            let n = actions.len();
            &&& n == count(!built) + count(capture_enabled)
            &&& !built ==> actions[0] == Action::SetUplink(UplinkState::Lost)
            &&& capture_enabled ==> actions[n - 1] == Action::OpenCapture
            &&& built ==> after.session && after.lost_at == v.lost_at && after.attempt == v.attempt
            &&& !built ==> after.session == v.session && after.lost_at == Some(now as int)
                && after.attempt == 0
            &&& after.capture == v.capture
            &&& after.cached == v.cached
            &&& after.stale == v.stale
        }),
{
}

/// A session that ends leaves the uplink idle, no pipeline, no preview where there was
/// one, and artifacts closed with a last record; so does the end of the process.
pub proof fn law_ends_leave_nothing(v: CoreView, has_preview: bool)
    ensures
        ({
            let (after, actions) = ended_spec(v, has_preview);
            let n = actions.len();
            &&& n == 1 + count(v.session) + count(has_preview) + 2 * count(v.capture)
            &&& actions[0] == Action::SetUplink(UplinkState::Idle)
            &&& v.session ==> actions[1] == Action::TearDown
            &&& has_preview ==> actions[1 + count(v.session) as int] == Action::ClearPreview
            &&& v.capture ==> actions[n - 2] == Action::Emit(CaptureEvent::SessionEnded)
            &&& v.capture ==> actions[n - 1] == Action::CloseCapture(
                CloseReason::PublisherDisconnect,
            )
            &&& !after.session && !after.capture && !after.stale
            &&& after.cached is None && after.lost_at is None && after.attempt == 0
        }),
        ({
            let (after, actions) = shutdown_spec(v, has_preview);
            let n = actions.len();
            &&& n == 1 + count(v.session) + count(has_preview) + 2 * count(v.capture)
            &&& v.session ==> actions[0] == Action::TearDown
            &&& has_preview ==> actions[count(v.session) as int] == Action::ClearPreview
            &&& v.capture ==> actions[n - 3] == Action::Emit(CaptureEvent::ProcessShutdown)
            &&& v.capture ==> actions[n - 2] == Action::CloseCapture(CloseReason::ProcessShutdown)
            &&& actions[n - 1] == Action::SetUplink(UplinkState::Idle)
            &&& !after.session && !after.capture
            &&& after.cached == v.cached && after.lost_at == v.lost_at
            &&& after.attempt == v.attempt && after.stale == v.stale
        }),
{
}

/// A record reaches the artifacts exactly while they are open.
pub proof fn law_records_go_to_open_artifacts(v: CoreView, e: CaptureEvent)
    ensures
        v.capture ==> emit(v, e).len() == 1 && emit(v, e)[0] == Action::Emit(e),
        !v.capture ==> emit(v, e).len() == 0,
{
}

/// Warnings that stopped more than three and a half seconds ago are over, and only
/// those: an uplink that they made count as lost is connected again, the warning is
/// forgotten, the recovery is counted, and its length is recorded in milliseconds.
pub proof fn law_recovery(v: CoreView, r: WatchdogReading)
    requires
        r.srt_warning_at_us <= r.now_us,
    ensures
        ({
            let actions = recovery_spec(v, r);
            if r.srt_warning_at_us > 0 && r.uplink == UplinkState::Lost && r.now_us
                - r.srt_warning_at_us > 3_500_000 {
                &&& actions.len() == 3 + count(v.capture)
                &&& actions[0] == Action::SetUplink(UplinkState::Connected)
                &&& actions[1] == Action::ClearSrtWarning
                &&& actions[2] == Action::CountRecovery
                &&& v.capture ==> (actions[3] matches Action::Emit(
                    CaptureEvent::SrtRecovered { downtime_ms },
                ) && downtime_ms == (r.now_us - r.srt_warning_at_us) / 1000)
            } else {
                actions.len() == 0
            }
        }),
{
}

/// Input is stale from five seconds without a frame on, and is recorded with the
/// frame's age when it turns stale and once more when it resumes. Where there is no
/// publisher, or no frame yet, nothing is recorded. A tick touches nothing else.
pub proof fn law_staleness(v: CoreView, r: WatchdogReading)
    requires
        r.last_frame_us <= r.now_us,
    ensures
        ({
            let (after, actions) = watchdog_spec(v, r);
            let age = r.now_us - r.last_frame_us;
            let judged = r.publisher_connected && r.last_frame_us != 0;
            let first = recovery_spec(v, r);
            let turns = judged && age >= 5_000_000 && !v.stale;
            let resumes = judged && age < 5_000_000 && v.stale;
            &&& after.stale == (r.publisher_connected && (turns || (v.stale && !resumes)))
            &&& actions.len() == first.len() + count(v.capture && (turns || resumes))
            &&& forall|i: int| 0 <= i < first.len() ==> actions[i] == #[trigger] first[i]
            &&& v.capture && turns ==> (actions.last() matches Action::Emit(
                CaptureEvent::DownlinkStale { frame_age_ms },
            ) && frame_age_ms == age / 1000)
            &&& v.capture && resumes ==> actions.last() == Action::Emit(
                CaptureEvent::DownlinkResumed,
            )
            &&& after.session == v.session
            &&& after.capture == v.capture
            &&& after.cached == v.cached
            &&& after.lost_at == v.lost_at
            &&& after.attempt == v.attempt
        }),
{
}

} // verus!
