//! The pipeline's life: sessions, failures, rebuilds, the watchdog and the bus.

use bumps_pipe::bus::{on_bus_message, BusAction, BusMessage};
use bumps_pipe::events::CaptureEvent;
use bumps_pipe::flv::{flv_header_bytes, flv_tag, TAG_TYPE_VIDEO};
use bumps_pipe::pipeline::{
    backoff, Action, CloseReason, PipelineCommand, PipelineCore, PipelineError, WatchdogReading,
};
use bumps_pipe::stats::UplinkState;

const SECOND: u64 = 1_000_000;

fn failure() -> PipelineError {
    PipelineError::Other {
        src: "enc".to_string(),
        message: "boom".to_string(),
    }
}

fn started() -> PipelineCore {
    let mut core = PipelineCore::new();
    core.on_session_started();
    core.on_start_built(true, true, 0);
    core.on_capture_opened(true, "live".to_string(), "k".to_string(), "p".to_string());
    core
}

fn reading(now_us: u64) -> WatchdogReading {
    WatchdogReading {
        now_us,
        srt_warning_at_us: 0,
        uplink: UplinkState::Connected,
        publisher_connected: true,
        last_frame_us: 0,
    }
}

#[test]
fn backoff_table() {
    let waits: Vec<u64> = (0..7).map(backoff).collect();
    assert_eq!(waits, vec![1, 2, 4, 8, 15, 15, 15]);
    assert_eq!(backoff(u32::MAX), 15);
}

#[test]
fn session_start_builds_and_opens() {
    let mut core = PipelineCore::new();
    assert_eq!(
        core.on_session_started(),
        vec![Action::SetUplink(UplinkState::Connecting), Action::BuildPipeline]
    );
    assert_eq!(core.on_start_built(true, true, 5), vec![Action::OpenCapture]);
    assert_eq!(
        core.on_capture_opened(true, "live".to_string(), "k".to_string(), "p".to_string()),
        vec![Action::Emit(CaptureEvent::SessionStarted {
            app: "live".to_string(),
            stream_key: "k".to_string(),
            peer: "p".to_string(),
            pipeline_built: true,
        })]
    );
    assert!(core.takes_records());
}

#[test]
fn failed_first_build_is_retried() {
    let mut core = PipelineCore::new();
    core.on_session_started();
    assert_eq!(
        core.on_start_built(false, false, 10 * SECOND),
        vec![Action::SetUplink(UplinkState::Lost)]
    );
    assert_eq!(core.tick_reconnect(true, 10 * SECOND + 999_999), vec![]);
    assert_eq!(
        core.tick_reconnect(true, 11 * SECOND),
        vec![
            Action::SetUplink(UplinkState::Connecting),
            Action::CountReconnectAttempt,
            Action::BuildPipeline,
        ]
    );
}

#[test]
fn artifacts_that_do_not_open_take_no_records() {
    let mut core = PipelineCore::new();
    core.on_session_started();
    core.on_start_built(true, true, 0);
    assert_eq!(
        core.on_capture_opened(false, "a".to_string(), "k".to_string(), "p".to_string()),
        vec![]
    );
    assert!(!core.takes_records());
    assert_eq!(core.on_push_failed("x".to_string()), vec![]);
}

#[test]
fn new_session_replaces_the_old() {
    let mut core = started();
    assert_eq!(
        core.on_session_started(),
        vec![
            Action::TearDown,
            Action::CloseCapture(CloseReason::Restart),
            Action::SetUplink(UplinkState::Connecting),
            Action::BuildPipeline,
        ]
    );
    assert_eq!(CloseReason::Restart.label(), "restart");
    assert_eq!(CloseReason::PublisherDisconnect.label(), "publisher_disconnect");
    assert_eq!(CloseReason::ProcessShutdown.label(), "process_shutdown");
}

#[test]
fn failure_tears_down_and_schedules() {
    let mut core = started();
    assert_eq!(
        core.on_pipeline_error(failure(), UplinkState::Connected, 20 * SECOND),
        vec![
            Action::TearDown,
            Action::Emit(CaptureEvent::PipelineFailed {
                src: "enc".to_string(),
                message: "boom".to_string(),
            }),
            Action::SetUplink(UplinkState::Lost),
        ]
    );
    assert_eq!(core.srt_lost_at_us, Some(20 * SECOND as i128));
    assert_eq!(core.srt_attempt, 0);
}

#[test]
fn errors_while_lost_change_nothing() {
    let mut core = started();
    core.on_pipeline_error(failure(), UplinkState::Connected, 20 * SECOND);
    assert_eq!(core.on_pipeline_error(failure(), UplinkState::Lost, 25 * SECOND), vec![]);
    assert_eq!(core.srt_lost_at_us, Some(20 * SECOND as i128));
}

#[test]
fn an_error_while_the_sink_is_in_trouble_rebuilds() {
    let mut core = started();
    let actions = core.on_pipeline_error(failure(), UplinkState::Lost, 20 * SECOND);
    assert_eq!(actions[0], Action::TearDown);
    assert_eq!(actions.len(), 3);
    assert!(!core.session);
    assert_eq!(core.srt_lost_at_us, Some(20 * SECOND as i128));
    assert!(!core.rebuild_is_due(false, 90 * SECOND));
    assert!(!core.rebuild_is_due(true, 20 * SECOND));
    assert!(core.rebuild_is_due(true, 21 * SECOND));
}

#[test]
fn rebuild_failures_back_off() {
    let mut core = started();
    core.on_pipeline_error(failure(), UplinkState::Connected, 0);
    let mut now = 0;
    let mut tries = Vec::new();
    while tries.len() < 6 {
        now += SECOND / 2;
        if !core.tick_reconnect(true, now).is_empty() {
            tries.push(now / SECOND);
            assert_eq!(
                core.on_reconnect_built(false, now),
                vec![Action::SetUplink(UplinkState::Lost)]
            );
        }
    }
    assert_eq!(tries, vec![1, 3, 7, 15, 30, 45]);
}

#[test]
fn successful_rebuild_replays() {
    let mut core = started();
    let tag = flv_tag(TAG_TYPE_VIDEO, 0, &[0x17, 0, 0, 0, 0, 1, 2, 3]);
    core.on_flv_chunk(&flv_header_bytes());
    core.on_flv_chunk(&tag);
    core.on_flv_chunk(&flv_tag(TAG_TYPE_VIDEO, 33, &[0x27, 1, 0, 0, 0]));
    core.on_pipeline_error(failure(), UplinkState::Connected, 0);
    core.tick_reconnect(true, SECOND);
    let replay = core.replay();
    assert_eq!(replay.len(), 2);
    assert_eq!(replay[0], flv_header_bytes());
    assert_eq!(replay[1], tag);
    assert_eq!(
        core.on_reconnect_built(true, SECOND),
        vec![
            Action::Replay,
            Action::CountRecovery,
            Action::Emit(CaptureEvent::SrtReconnected { attempt: 1 }),
        ]
    );
    assert_eq!(core.srt_lost_at_us, None);
    assert_eq!(core.on_flv_chunk(&tag), vec![Action::PushChunk]);
}

#[test]
fn no_publisher_no_rebuild() {
    let mut core = started();
    core.on_pipeline_error(failure(), UplinkState::Connected, 0);
    assert_eq!(core.tick_reconnect(false, 100 * SECOND), vec![]);
}

#[test]
fn restart_rebuilds_at_once() {
    let mut core = started();
    assert_eq!(
        core.on_command(PipelineCommand::Restart, 3 * SECOND),
        vec![
            Action::TearDown,
            Action::Emit(CaptureEvent::OperatorRestart),
            Action::SetUplink(UplinkState::Lost),
        ]
    );
    assert_eq!(core.tick_reconnect(true, 3 * SECOND).len(), 3);
}

#[test]
fn chunks_are_dropped_without_pipeline() {
    let mut core = PipelineCore::new();
    let tag = flv_tag(TAG_TYPE_VIDEO, 0, &[0x17, 0, 0, 0, 0, 1]);
    assert_eq!(core.on_flv_chunk(&tag), vec![]);
    assert_eq!(core.replay().len(), 2);
}

#[test]
fn session_end_clears_everything() {
    let mut core = started();
    core.on_flv_chunk(&flv_tag(TAG_TYPE_VIDEO, 0, &[0x17, 0, 0, 0, 0, 1]));
    assert_eq!(
        core.on_session_ended(true),
        vec![
            Action::SetUplink(UplinkState::Idle),
            Action::TearDown,
            Action::ClearPreview,
            Action::Emit(CaptureEvent::SessionEnded),
            Action::CloseCapture(CloseReason::PublisherDisconnect),
        ]
    );
    assert_eq!(core.replay().len(), 1);
    assert_eq!(
        core.on_session_ended(false),
        vec![Action::SetUplink(UplinkState::Idle)]
    );
}

#[test]
fn shutdown_closes_what_is_open() {
    let mut core = started();
    assert_eq!(
        core.on_shutdown(false),
        vec![
            Action::TearDown,
            Action::Emit(CaptureEvent::ProcessShutdown),
            Action::CloseCapture(CloseReason::ProcessShutdown),
            Action::SetUplink(UplinkState::Idle),
        ]
    );
}

#[test]
fn failed_push_is_recorded() {
    let core = started();
    assert_eq!(
        core.on_push_failed("eos".to_string()),
        vec![Action::Emit(CaptureEvent::PushFailed {
            error: "eos".to_string()
        })]
    );
}

#[test]
fn stale_input_is_recorded_once_and_resumes() {
    let mut core = started();
    let mut r = reading(10 * SECOND);
    r.last_frame_us = 5 * SECOND + 1;
    assert_eq!(core.tick_watchdog(&r), vec![]);
    r.now_us += 1;
    assert_eq!(
        core.tick_watchdog(&r),
        vec![Action::Emit(CaptureEvent::DownlinkStale { frame_age_ms: 5000 })]
    );
    r.now_us += SECOND;
    assert_eq!(core.tick_watchdog(&r), vec![]);
    r.last_frame_us = r.now_us;
    assert_eq!(
        core.tick_watchdog(&r),
        vec![Action::Emit(CaptureEvent::DownlinkResumed)]
    );
    assert_eq!(core.tick_watchdog(&r), vec![]);
}

#[test]
fn quiet_uplink_recovers() {
    let mut core = started();
    let mut r = reading(10 * SECOND);
    r.uplink = UplinkState::Lost;
    r.srt_warning_at_us = 6_500_000;
    assert_eq!(core.tick_watchdog(&r), vec![]);
    r.now_us += 1000;
    assert_eq!(
        core.tick_watchdog(&r),
        vec![
            Action::SetUplink(UplinkState::Connected),
            Action::ClearSrtWarning,
            Action::CountRecovery,
            Action::Emit(CaptureEvent::SrtRecovered { downtime_ms: 3501 }),
        ]
    );
}

#[test]
fn srt_errors_only_mark_the_uplink() {
    let error = |src: &str| BusMessage::Error {
        src: src.to_string(),
        text: "broken".to_string(),
    };
    let record = |src: &str| {
        BusAction::Record(CaptureEvent::BusError {
            src: src.to_string(),
            error: "broken".to_string(),
        })
    };
    assert_eq!(
        on_bus_message(error("uplink"), UplinkState::Connected),
        vec![
            record("uplink"),
            BusAction::StampSrtWarning,
            BusAction::SetUplink(UplinkState::Lost),
        ]
    );
    assert_eq!(
        on_bus_message(error("uplink"), UplinkState::Connecting),
        vec![record("uplink"), BusAction::StampSrtWarning]
    );
    assert_eq!(
        on_bus_message(error("demux"), UplinkState::Connected),
        vec![
            record("demux"),
            BusAction::Fail(PipelineError::Other {
                src: "demux".to_string(),
                message: "broken".to_string(),
            }),
        ]
    );
}

#[test]
fn warnings_and_states_on_the_bus() {
    let warning = |src: &str| BusMessage::Warning {
        src: src.to_string(),
        text: "closed".to_string(),
    };
    assert_eq!(
        on_bus_message(warning("uplink"), UplinkState::Connected),
        vec![
            BusAction::StampSrtWarning,
            BusAction::SetUplink(UplinkState::Lost),
            BusAction::Record(CaptureEvent::SrtWarning {
                message: "closed".to_string()
            }),
        ]
    );
    assert_eq!(
        on_bus_message(warning("uplink"), UplinkState::Lost),
        vec![BusAction::StampSrtWarning]
    );
    assert_eq!(on_bus_message(warning("enc"), UplinkState::Connected), vec![]);
    let playing = BusMessage::StateChanged {
        of_pipeline: true,
        playing: true,
    };
    assert_eq!(
        on_bus_message(playing, UplinkState::Connecting),
        vec![BusAction::SetUplink(UplinkState::Connected)]
    );
    let element = BusMessage::StateChanged {
        of_pipeline: false,
        playing: true,
    };
    assert_eq!(on_bus_message(element, UplinkState::Connecting), vec![]);
    assert_eq!(on_bus_message(BusMessage::EndOfStream, UplinkState::Connected), vec![]);
    assert_eq!(on_bus_message(BusMessage::Other, UplinkState::Connected), vec![]);
}
