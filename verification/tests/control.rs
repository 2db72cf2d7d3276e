//! Bitrate adaptation, statistics, configuration and the operator's commands.

use bumps_pipe::adapt::{
    clamp, AdaptAction, AdaptInput, Adapter, AdapterConfig, PathClass, StepKind,
};
use bumps_pipe::collector::{
    compute_rollup, empty_snapshot, Collector, CollectorConfig, Counters, SrtCounters,
};
use bumps_pipe::config::{adapt_max_kbps, adapt_min_kbps, finalise_srt_uri};
use bumps_pipe::events::CaptureEvent;
use bumps_pipe::ping::{PingCounters, PingOutcome};
use bumps_pipe::pipeline::PipelineCommand;
use bumps_pipe::stats::{HealthRollup, LossLevel, PreviewStats, UplinkState};
use bumps_pipe::web::{
    handle_client_command, CommandEffect, Phase, Socket, SocketAction, SocketEvent,
};
use bumps_pipe::wsproto::ClientMsg;

fn adapter_config() -> AdapterConfig {
    AdapterConfig {
        enabled: true,
        nominal_kbps: 8000,
        min_kbps: 4000,
        max_kbps: 9600,
    }
}

fn tick(path: PathClass, now_us: u64) -> AdaptInput {
    AdaptInput {
        override_kbps: 0,
        connected: true,
        path,
        now_us,
    }
}

fn seconds(n: u64) -> u64 {
    n * 1_000_000
}

#[test]
fn clamping() {
    assert_eq!(clamp(5, 10, 20), 10);
    assert_eq!(clamp(15, 10, 20), 15);
    assert_eq!(clamp(25, 10, 20), 20);
}

#[test]
fn five_bad_ticks_step_down() {
    let cfg = adapter_config();
    let mut a = Adapter::new(&cfg, 0);
    for s in 1..5 {
        assert_eq!(a.tick(&cfg, &tick(PathClass::Bad, seconds(s))), AdaptAction::Hold);
    }
    assert_eq!(
        a.tick(&cfg, &tick(PathClass::Bad, seconds(5))),
        AdaptAction::Step {
            from_kbps: 8000,
            to_kbps: 6000,
            kind: StepKind::Down
        }
    );
    assert_eq!(a.target_kbps, 6000);
}

#[test]
fn steps_down_stop_at_the_floor() {
    let cfg = adapter_config();
    let mut a = Adapter::new(&cfg, 0);
    let mut targets = Vec::new();
    for s in 1..200 {
        if let AdaptAction::Step { to_kbps, .. } = a.tick(&cfg, &tick(PathClass::Bad, seconds(s))) {
            targets.push(to_kbps);
        }
    }
    assert_eq!(targets, vec![6000, 4500, 4000]);
}

#[test]
fn thirty_good_ticks_step_up() {
    let cfg = adapter_config();
    let mut a = Adapter::new(&cfg, 0);
    let mut steps = Vec::new();
    for s in 1..200 {
        if let AdaptAction::Step { to_kbps, kind, .. } =
            a.tick(&cfg, &tick(PathClass::Good, seconds(s)))
        {
            steps.push((s, to_kbps, kind));
        }
    }
    assert_eq!(steps, vec![(30, 9600, StepKind::Up)]);
}

#[test]
fn cooldown_holds_steps_off() {
    let cfg = adapter_config();
    let mut a = Adapter::new(&cfg, 0);
    let mut moments = Vec::new();
    for s in 1..25 {
        if let AdaptAction::Step { .. } = a.tick(&cfg, &tick(PathClass::Bad, seconds(s))) {
            moments.push(s);
        }
    }
    assert_eq!(moments, vec![5, 15]);
}

#[test]
fn middling_ticks_wear_streaks_down() {
    let cfg = adapter_config();
    let mut a = Adapter::new(&cfg, 0);
    a.tick(&cfg, &tick(PathClass::Bad, seconds(1)));
    a.tick(&cfg, &tick(PathClass::Bad, seconds(2)));
    assert_eq!(a.bad_streak, 2);
    a.tick(&cfg, &tick(PathClass::Middling, seconds(3)));
    assert_eq!(a.bad_streak, 1);
    a.tick(&cfg, &tick(PathClass::Good, seconds(4)));
    assert_eq!((a.bad_streak, a.good_streak), (0, 1));
}

#[test]
fn pin_takes_precedence() {
    let cfg = adapter_config();
    let mut a = Adapter::new(&cfg, 0);
    let mut i = tick(PathClass::Bad, seconds(1));
    i.override_kbps = 20_000;
    assert_eq!(a.tick(&cfg, &i), AdaptAction::Apply { kbps: 9600 });
    i.now_us = seconds(2);
    assert_eq!(a.tick(&cfg, &i), AdaptAction::Hold);
    assert_eq!(a.target_kbps, 9600);
}

#[test]
fn no_session_resets_to_nominal() {
    let cfg = adapter_config();
    let mut a = Adapter::new(&cfg, 0);
    for s in 1..6 {
        a.tick(&cfg, &tick(PathClass::Bad, seconds(s)));
    }
    assert_eq!(a.target_kbps, 6000);
    let mut i = tick(PathClass::Bad, seconds(6));
    i.connected = false;
    assert_eq!(a.tick(&cfg, &i), AdaptAction::Publish { kbps: 8000 });
    assert_eq!((a.target_kbps, a.bad_streak), (8000, 0));
}

#[test]
fn arithmetic_limits_are_told() {
    let cfg = AdapterConfig {
        enabled: true,
        nominal_kbps: u32::MAX,
        min_kbps: 0,
        max_kbps: u32::MAX,
    };
    let mut a = Adapter::new(&cfg, 0);
    for s in 1..5 {
        let i = tick(PathClass::Bad, seconds(s));
        assert!(a.fits(&cfg, &i));
        a.tick(&cfg, &i);
    }
    assert!(!a.fits(&cfg, &tick(PathClass::Bad, seconds(5))));
}

#[test]
fn default_bounds_and_given_bounds() {
    assert_eq!(adapt_min_kbps(8000, None), 4000);
    assert_eq!(adapt_min_kbps(1000, None), 500);
    assert_eq!(adapt_min_kbps(8000, Some(1)), 1);
    assert_eq!(adapt_max_kbps(8000, None), 9600);
    assert_eq!(adapt_max_kbps(1000, None), 1200);
    assert_eq!(adapt_max_kbps(8000, Some(7)), 7);
}

#[test]
fn bare_uri_gets_defaults() {
    assert_eq!(
        finalise_srt_uri("srt://127.0.0.1:9999", 8000),
        "srt://127.0.0.1:9999?mode=caller&latency=8000&peerlatency=8000&oheadbw=100\
         &inputbw=1000000&maxbw=2000000&rcvbuf=25000000&sndbuf=25000000\
         &peeridletimeo=30000&streamid=drone"
    );
}

#[test]
fn uri_with_parameters_is_kept() {
    let uri = "srt://h:1?mode=listener";
    assert_eq!(finalise_srt_uri(uri, 8000), uri);
    let once = finalise_srt_uri("srt://h:1", 3000);
    assert_eq!(finalise_srt_uri(&once, 9000), once);
}

fn collector_config() -> CollectorConfig {
    CollectorConfig {
        target_bitrate_kbps: 8000,
        encoder_codec_label: "x264".to_string(),
        ping_target: "host:443".to_string(),
        adapt_enabled: false,
        adapt_min_kbps: 4000,
        adapt_max_kbps: 9600,
    }
}

fn counters() -> Counters {
    Counters {
        now_us: 5_000_000,
        now_unix_ms: 1_700_000_000_000,
        publisher_connected: true,
        bytes_in: 1000,
        frames_in: 10,
        last_frame_us: 4_900_000,
        session_started_us: 1_000_000,
        pts_anomalies: 3,
        enc_bytes: 500,
        enc_frames: 9,
        preview: PreviewStats {
            clients: 2,
            sent_frames: 7,
            sent_bytes: 70,
            dropped: 1,
        },
        restarts: 0,
        adapt_target_kbps: 0,
        adapt_step_downs: 0,
        adapt_step_ups: 0,
        adapt_override_kbps: 0,
        uplink: UplinkState::Connected,
        srt: Some(SrtCounters {
            sent_bytes: 4000,
            retransmitted_pkts: 5,
            lost_pkts: 6,
            loss: LossLevel::Low,
        }),
        ping_last_rtt_us: 0,
        ping_last_success_us: 0,
        ping_success_total: 0,
        ping_failure_total: 4,
    }
}

#[test]
fn snapshot_mirrors_counters() {
    let cfg = collector_config();
    let mut col = Collector::new();
    let (snap, rates) = col.tick(&cfg, &counters());
    assert_eq!(snap.downlink.last_frame_age_ms, Some(100));
    assert_eq!(snap.downlink.session_uptime_us, Some(4_000_000));
    assert_eq!(snap.downlink.pts_anomalies, 3);
    assert_eq!(snap.encoder.target_kbps, 8000);
    assert_eq!(snap.encoder.frames_out, 9);
    assert_eq!(snap.uplink.sent_bytes, 4000);
    assert_eq!(snap.uplink.lost_pkts, 6);
    assert_eq!(snap.ping.last_rtt_us, None);
    assert_eq!(snap.ping.failure_count, 4);
    assert_eq!(snap.pipeline.rollup, HealthRollup::Healthy);
    assert_eq!(snap.pipeline.uptime_us, 5_000_000);
    assert_eq!(rates.dt_us, 1_000_000);
    assert_eq!(rates.down_bytes, 1000);
    assert_eq!(rates.sent_bytes, Some(4000));
}

#[test]
fn deltas_add_up_to_the_counter() {
    let cfg = collector_config();
    let mut col = Collector::new();
    let mut sum = 0;
    for (n, bytes) in [1000u64, 1000, 7000, 9000].iter().enumerate() {
        let mut c = counters();
        c.now_us = 1_000_000 * (n as u64 + 1);
        c.bytes_in = *bytes;
        let (_, rates) = col.tick(&cfg, &c);
        sum += rates.down_bytes;
    }
    assert_eq!(sum, 9000);
}

#[test]
fn lost_element_clears_uplink() {
    let cfg = collector_config();
    let mut col = Collector::new();
    col.tick(&cfg, &counters());
    let mut c = counters();
    c.now_us = 5_010_000;
    c.srt = None;
    c.adapt_target_kbps = 6000;
    let (snap, rates) = col.tick(&cfg, &c);
    assert_eq!(snap.uplink.sent_bytes, 0);
    assert_eq!(rates.sent_bytes, None);
    assert_eq!(rates.dt_us, 50_000);
    assert_eq!(snap.encoder.target_kbps, 6000);
    assert_eq!(col.prev_srt_sent_bytes, 0);
}

#[test]
fn empty_snapshot_shows_configuration() {
    let s = empty_snapshot(&collector_config());
    assert_eq!(s.ts_unix_ms, 0);
    assert_eq!(s.encoder.codec, "x264");
    assert_eq!(s.encoder.target_kbps, 8000);
    assert_eq!(s.encoder.min_kbps, 4000);
    assert_eq!(s.uplink.state, UplinkState::Idle);
    assert_eq!(s.ping.target, "host:443");
    assert_eq!(s.pipeline.rollup, HealthRollup::Warn);
}

#[test]
fn rollup_table() {
    let low = LossLevel::Low;
    assert_eq!(compute_rollup(false, Some(0), low), HealthRollup::Warn);
    assert_eq!(compute_rollup(true, None, low), HealthRollup::Warn);
    assert_eq!(compute_rollup(true, Some(2001), low), HealthRollup::Bad);
    assert_eq!(compute_rollup(true, Some(2000), low), HealthRollup::Warn);
    assert_eq!(compute_rollup(true, Some(501), LossLevel::High), HealthRollup::Warn);
    assert_eq!(compute_rollup(true, Some(500), LossLevel::High), HealthRollup::Bad);
    assert_eq!(compute_rollup(true, Some(500), LossLevel::Elevated), HealthRollup::Warn);
    assert_eq!(compute_rollup(true, Some(500), low), HealthRollup::Healthy);
}

#[test]
fn uplink_state_codes() {
    for s in [
        UplinkState::Idle,
        UplinkState::Connecting,
        UplinkState::Connected,
        UplinkState::Lost,
    ] {
        assert_eq!(UplinkState::from_u8(s.as_u8()), s);
    }
    assert_eq!(UplinkState::Lost.as_u8(), 3);
    assert_eq!(UplinkState::from_u8(200), UplinkState::Idle);
}

#[test]
fn ping_outcomes_are_counted() {
    let mut p = PingCounters {
        last_rtt_us: 0,
        last_success_us: 0,
        success_total: 0,
        failure_total: u64::MAX,
    };
    p.count(PingOutcome::Connected { rtt_us: 12_000 }, 5_000_000);
    assert_eq!((p.last_rtt_us, p.last_success_us, p.success_total), (12_000, 5_000_000, 1));
    p.count(PingOutcome::TimedOut, 6_000_000);
    assert_eq!(p.failure_total, 0);
    p.count(PingOutcome::Failed, 7_000_000);
    assert_eq!((p.failure_total, p.last_success_us), (1, 5_000_000));
}

#[test]
fn keyframe_command_forces_both() {
    assert_eq!(
        handle_client_command(ClientMsg::RequestKeyframe, 1, 2),
        vec![
            CommandEffect::ForceKeyframe,
            CommandEffect::ForcePreviewKeyframe,
            CommandEffect::Record(CaptureEvent::OperatorKeyframe),
        ]
    );
}

#[test]
fn pin_command_is_clamped() {
    assert_eq!(
        handle_client_command(ClientMsg::SetBitrate { kbps: 50_000 }, 4000, 9600),
        vec![
            CommandEffect::SetOverride(9600),
            CommandEffect::SetEncoderBitrate(9600),
            CommandEffect::PublishTarget(9600),
            CommandEffect::Record(CaptureEvent::BitratePinned { kbps: 9600 }),
        ]
    );
    assert_eq!(
        handle_client_command(ClientMsg::SetBitrate { kbps: 0 }, 4000, 9600)[0],
        CommandEffect::SetOverride(4000)
    );
}

#[test]
fn a_pin_with_crossed_bounds_is_kept() {
    assert_eq!(
        handle_client_command(ClientMsg::SetBitrate { kbps: 700 }, 1000, 500)[0],
        CommandEffect::SetOverride(700)
    );
}

#[test]
fn a_disabled_adapter_holds() {
    let cfg = AdapterConfig {
        enabled: false,
        ..adapter_config()
    };
    let mut a = Adapter::new(&cfg, 0);
    let before = a;
    assert_eq!(a.opening(&cfg), AdaptAction::Hold);
    assert_eq!(a.opening(&adapter_config()), AdaptAction::Publish { kbps: 8000 });
    for s in 1..40 {
        let mut i = tick(PathClass::Bad, seconds(s));
        i.override_kbps = 5000;
        assert!(a.fits(&cfg, &i));
        assert_eq!(a.tick(&cfg, &i), AdaptAction::Hold);
    }
    assert_eq!(a, before);
}

#[test]
fn release_and_restart_commands() {
    assert_eq!(
        handle_client_command(ClientMsg::ClearBitrateOverride, 1, 2),
        vec![
            CommandEffect::SetOverride(0),
            CommandEffect::Record(CaptureEvent::BitrateUnpinned),
        ]
    );
    assert_eq!(
        handle_client_command(ClientMsg::RestartPipeline, 1, 2),
        vec![CommandEffect::Command(PipelineCommand::Restart)]
    );
}

#[test]
fn dashboard_is_greeted() {
    let mut s = Socket::new();
    assert_eq!(
        s.on_event(SocketEvent::Joined { has_init: true }),
        vec![SocketAction::CountIn, SocketAction::SendInit]
    );
    assert_eq!(
        s.on_event(SocketEvent::Sent),
        vec![SocketAction::ForcePreviewKeyframe, SocketAction::SendStats]
    );
    assert_eq!(s.on_event(SocketEvent::Sent), vec![]);
    assert_eq!(s.phase, Phase::Streaming);
    let mut t = Socket::new();
    assert_eq!(
        t.on_event(SocketEvent::Joined { has_init: false }),
        vec![SocketAction::CountIn, SocketAction::SendStats]
    );
}

#[test]
fn failed_greeting_counts_out() {
    let mut s = Socket::new();
    s.on_event(SocketEvent::Joined { has_init: true });
    assert_eq!(s.on_event(SocketEvent::SendFailed), vec![SocketAction::CountOut]);
    assert!(s.has_left());
    assert_eq!(s.on_event(SocketEvent::Frame), vec![]);
}

#[test]
fn streaming_dashboard() {
    let mut s = Socket::new();
    s.on_event(SocketEvent::Joined { has_init: false });
    s.on_event(SocketEvent::Sent);
    assert_eq!(s.on_event(SocketEvent::Frame), vec![SocketAction::SendFrame]);
    assert_eq!(s.on_event(SocketEvent::StatsChanged), vec![SocketAction::SendStats]);
    assert_eq!(
        s.on_event(SocketEvent::InitChanged { has_init: true }),
        vec![SocketAction::SendInit]
    );
    assert_eq!(s.on_event(SocketEvent::InitChanged { has_init: false }), vec![]);
    assert_eq!(
        s.on_event(SocketEvent::Lagged(17)),
        vec![SocketAction::CountDropped(17), SocketAction::ForcePreviewKeyframe]
    );
    assert_eq!(s.on_event(SocketEvent::Command), vec![SocketAction::RunCommand]);
    assert_eq!(s.on_event(SocketEvent::OtherMessage), vec![]);
    assert_eq!(s.on_event(SocketEvent::Closed), vec![SocketAction::CountOut]);
    assert!(s.has_left());
}

#[test]
fn clients_are_counted_in_and_out_once() {
    let all = [
        SocketEvent::Sent,
        SocketEvent::SendFailed,
        SocketEvent::Frame,
        SocketEvent::Lagged(1),
        SocketEvent::SourceClosed,
        SocketEvent::Closed,
    ];
    for a in all {
        for b in all {
            for c in all {
                let mut s = Socket::new();
                let mut balance = 0;
                let joined = SocketEvent::Joined { has_init: true };
                for e in [joined, a, b, c, SocketEvent::SendFailed] {
                    for action in s.on_event(e) {
                        match action {
                            SocketAction::CountIn => balance += 1,
                            SocketAction::CountOut => balance -= 1,
                            _ => {}
                        }
                    }
                }
                assert_eq!(balance, 0);
            }
        }
    }
}
