//! The one-second collector: from counters to a snapshot.

use vstd::prelude::*;

use crate::stats::{
    DownlinkStats, EncoderStats, HealthRollup, LossLevel, PingStats, PipelineHealth, PreviewStats,
    Snapshot, UplinkState, UplinkStats,
};

verus! {

/// What the collector is told at startup.
#[derive(Debug, Clone, PartialEq, Eq)]
pub struct CollectorConfig {
    pub target_bitrate_kbps: u32,
    pub encoder_codec_label: String,
    pub ping_target: String,
    pub adapt_enabled: bool,
    pub adapt_min_kbps: u32,
    pub adapt_max_kbps: u32,
}

/// The counters of the SRT element, and how its smoothed loss stands.
#[derive(Debug, Clone, Copy, PartialEq, Eq, Structural)]
pub struct SrtCounters {
    pub sent_bytes: u64,
    pub retransmitted_pkts: u64,
    pub lost_pkts: u64,
    pub loss: LossLevel,
}

/// Everything that is read at a tick. Moments are microseconds since the process
/// started; zero means that the thing has not happened.
#[derive(Debug, Clone, Copy, PartialEq, Eq, Structural)]
pub struct Counters {
    pub now_us: u64,
    pub now_unix_ms: u64,
    pub publisher_connected: bool,
    pub bytes_in: u64,
    pub frames_in: u64,
    pub last_frame_us: u64,
    pub session_started_us: u64,
    pub pts_anomalies: u64,
    pub enc_bytes: u64,
    pub enc_frames: u64,
    pub preview: PreviewStats,
    pub restarts: u32,
    pub adapt_target_kbps: u32,
    pub adapt_step_downs: u64,
    pub adapt_step_ups: u64,
    pub adapt_override_kbps: u32,
    pub uplink: UplinkState,
    pub srt: Option<SrtCounters>,
    pub ping_last_rtt_us: u64,
    pub ping_last_success_us: u64,
    pub ping_success_total: u64,
    pub ping_failure_total: u64,
}

/// What moved since the tick before, for the smoothed rates.
#[derive(Debug, Clone, Copy, PartialEq, Eq, Structural)]
pub struct Rates {
    pub dt_us: u64,
    pub down_bytes: u64,
    pub enc_bytes: u64,
    /// Bytes sent over SRT, while there is an SRT element.
    pub sent_bytes: Option<u64>,
}

/// What the collector carries from tick to tick.
#[derive(Debug, Clone, Copy, PartialEq, Eq, Structural)]
pub struct Collector {
    pub prev_us: u64,
    pub prev_bytes_in: u64,
    pub prev_enc_bytes: u64,
    pub prev_srt_sent_bytes: u64,
}

/// `a - b`, or zero where that would be negative.
pub open spec fn since(a: u64, b: u64) -> u64 {
    if a >= b {
        (a - b) as u64
    } else {
        0
    }
}

/// The time since `moment`, which zero marks as not having happened.
pub open spec fn age(now: u64, moment: u64) -> Option<u64> {
    if moment == 0 {
        None
    } else {
        Some(since(now, moment))
    }
}

/// `us` in whole milliseconds, in 32 bits.
pub open spec fn to_ms(us: u64) -> u32 {
    ((us / 1000) % 0x1_0000_0000) as u32
}

/// The age of the last frame in milliseconds.
pub open spec fn frame_age_ms(now: u64, last_frame_us: u64) -> Option<u32> {
    match age(now, last_frame_us) {
        Some(us) => Some(to_ms(us)),
        None => None,
    }
}

/// The length of the interval that rates are taken over: a second at the first
/// tick, and never less than a twentieth.
pub open spec fn interval_us(prev_us: u64, now_us: u64) -> u64 {
    let dt = if prev_us == 0 {
        1_000_000
    } else {
        since(now_us, prev_us)
    };
    if dt < 50_000 {
        50_000
    } else {
        dt
    }
}

/// Overall health. Warn where there is no publisher or no frame yet. Else the age
/// of the last frame decides if it is more than half a second: bad above two
/// seconds, warn below. Else loss decides: bad where it is high, warn where it is
/// elevated.
pub open spec fn rollup_spec(
    connected: bool,
    age_ms: Option<u32>,
    loss: LossLevel,
) -> HealthRollup {
    match age_ms {
        Some(age) if connected => if age > 2000 || (age <= 500 && loss == LossLevel::High) {
            HealthRollup::Bad
        } else if age > 500 || loss == LossLevel::Elevated {
            HealthRollup::Warn
        } else {
            HealthRollup::Healthy
        },
        _ => HealthRollup::Warn,
    }
}

/// Overall health from the publisher, the age of its last frame, and loss.
pub fn compute_rollup(
    publisher_connected: bool,
    last_frame_age_ms: Option<u32>,
    loss: LossLevel,
) -> (r: HealthRollup)
    ensures
        r == rollup_spec(publisher_connected, last_frame_age_ms, loss),
{
    if !publisher_connected {
        return HealthRollup::Warn;
    }
    if let Some(age) = last_frame_age_ms {
        if age > 2000 {
            return HealthRollup::Bad;
        }
        if age > 500 {
            return HealthRollup::Warn;
        }
    } else {
        return HealthRollup::Warn;
    }
    match loss {
        LossLevel::High => HealthRollup::Bad,
        LossLevel::Elevated => HealthRollup::Warn,
        LossLevel::Low => HealthRollup::Healthy,
    }
}

fn age_of(now: u64, moment: u64) -> (r: Option<u64>)
    ensures
        r == age(now, moment),
{
    if moment == 0 {
        None
    } else {
        Some(now.saturating_sub(moment))
    }
}

fn to_ms_of(us: u64) -> (ms: u32)
    ensures
        ms == to_ms(us),
{
    let q: u64 = us / 1000;
    assert(q as u32 == q % 0x1_0000_0000) by (bit_vector);
    #[verifier::truncate]
    (q as u32)
}

/// The loss level that counts: low while there is no SRT element.
pub open spec fn loss_of(c: Counters) -> LossLevel {
    match c.srt {
        Some(s) => s.loss,
        None => LossLevel::Low,
    }
}

/// The uplink part of a snapshot: all zeros while there is no SRT element.
pub open spec fn uplink_of(c: Counters) -> UplinkStats {
    match c.srt {
        Some(s) => UplinkStats {
            state: c.uplink,
            sent_bytes: s.sent_bytes,
            retransmitted_pkts: s.retransmitted_pkts,
            lost_pkts: s.lost_pkts,
        },
        None => UplinkStats {
            state: c.uplink,
            sent_bytes: 0,
            retransmitted_pkts: 0,
            lost_pkts: 0,
        },
    }
}

/// `s` is the snapshot of the counters `c`.
pub open spec fn is_snapshot_of(s: Snapshot, cfg: CollectorConfig, c: Counters) -> bool {
    &&& s.ts_unix_ms == c.now_unix_ms
    &&& s.downlink == (DownlinkStats {
        connected: c.publisher_connected,
        bytes_in: c.bytes_in,
        frames_in: c.frames_in,
        last_frame_age_ms: frame_age_ms(c.now_us, c.last_frame_us),
        session_uptime_us: age(c.now_us, c.session_started_us),
        pts_anomalies: c.pts_anomalies,
    })
    &&& s.encoder == (EncoderStats {
        codec: cfg.encoder_codec_label,
        target_kbps: if c.adapt_target_kbps == 0 {
            cfg.target_bitrate_kbps
        } else {
            c.adapt_target_kbps
        },
        nominal_kbps: cfg.target_bitrate_kbps,
        frames_out: c.enc_frames,
        adapt_enabled: cfg.adapt_enabled,
        min_kbps: cfg.adapt_min_kbps,
        max_kbps: cfg.adapt_max_kbps,
        step_downs: c.adapt_step_downs,
        step_ups: c.adapt_step_ups,
        override_kbps: c.adapt_override_kbps,
    })
    &&& s.preview == c.preview
    &&& s.uplink == uplink_of(c)
    &&& s.ping == (PingStats {
        target: cfg.ping_target,
        last_rtt_us: if c.ping_last_rtt_us == 0 {
            None
        } else {
            Some(c.ping_last_rtt_us)
        },
        success_count: c.ping_success_total,
        failure_count: c.ping_failure_total,
        last_success_age_us: age(c.now_us, c.ping_last_success_us),
    })
    &&& s.pipeline == (PipelineHealth {
        rollup: rollup_spec(
            c.publisher_connected,
            frame_age_ms(c.now_us, c.last_frame_us),
            loss_of(c),
        ),
        uptime_us: c.now_us,
        restarts: c.restarts,
    })
}

/// What moved between the tick that left `state` and the counters `c`.
pub open spec fn rates_spec(state: Collector, c: Counters) -> Rates {
    Rates {
        dt_us: interval_us(state.prev_us, c.now_us),
        down_bytes: (c.bytes_in - state.prev_bytes_in) as u64,
        enc_bytes: (c.enc_bytes - state.prev_enc_bytes) as u64,
        sent_bytes: match c.srt {
            Some(s) => Some(since(s.sent_bytes, state.prev_srt_sent_bytes)),
            None => None,
        },
    }
}

/// What the collector remembers after a tick on the counters `c`.
pub open spec fn collector_after(state: Collector, c: Counters) -> Collector {
    Collector {
        prev_us: c.now_us,
        prev_bytes_in: c.bytes_in,
        prev_enc_bytes: c.enc_bytes,
        prev_srt_sent_bytes: match c.srt {
            Some(s) => s.sent_bytes,
            None => 0,
        },
    }
}

impl Collector {
    /// A collector before its first tick.
    pub fn new() -> (c: Collector)
        ensures
            c == (Collector {
                prev_us: 0,
                prev_bytes_in: 0,
                prev_enc_bytes: 0,
                prev_srt_sent_bytes: 0,
            }),
    {
        Collector { prev_us: 0, prev_bytes_in: 0, prev_enc_bytes: 0, prev_srt_sent_bytes: 0 }
    }

    /// One tick: the snapshot of the counters, and what moved since the tick
    /// before. Byte counters never run backwards.
    pub fn tick(&mut self, cfg: &CollectorConfig, c: &Counters) -> (r: (Snapshot, Rates))
        requires
            c.bytes_in >= old(self).prev_bytes_in,
            c.enc_bytes >= old(self).prev_enc_bytes,
        ensures
            is_snapshot_of(r.0, *cfg, *c),
            r.1 == rates_spec(*old(self), *c),
            *final(self) == collector_after(*old(self), *c),
    {
        let mut dt_us: u64 = if self.prev_us == 0 {
            1_000_000
        } else {
            c.now_us.saturating_sub(self.prev_us)
        };
        if dt_us < 50_000 {
            dt_us = 50_000;
        }
        let down_bytes: u64 = c.bytes_in - self.prev_bytes_in;
        let enc_bytes: u64 = c.enc_bytes - self.prev_enc_bytes;

        let last_frame_age_ms = match age_of(c.now_us, c.last_frame_us) {
            Some(us) => Some(to_ms_of(us)),
            None => None,
        };

        let (uplink, sent_bytes, loss) = match c.srt {
            Some(s) => {
                let delta: u64 = s.sent_bytes.saturating_sub(self.prev_srt_sent_bytes);
                self.prev_srt_sent_bytes = s.sent_bytes;
                (
                    UplinkStats {
                        state: c.uplink,
                        sent_bytes: s.sent_bytes,
                        retransmitted_pkts: s.retransmitted_pkts,
                        lost_pkts: s.lost_pkts,
                    },
                    Some(delta),
                    s.loss,
                )
            },
            None => {
                self.prev_srt_sent_bytes = 0;
                (
                    UplinkStats {
                        state: c.uplink,
                        sent_bytes: 0,
                        retransmitted_pkts: 0,
                        lost_pkts: 0,
                    },
                    None,
                    LossLevel::Low,
                )
            },
        };

        let snapshot = Snapshot {
            ts_unix_ms: c.now_unix_ms,
            downlink: DownlinkStats {
                connected: c.publisher_connected,
                bytes_in: c.bytes_in,
                frames_in: c.frames_in,
                last_frame_age_ms,
                session_uptime_us: age_of(c.now_us, c.session_started_us),
                pts_anomalies: c.pts_anomalies,
            },
            encoder: EncoderStats {
                codec: cfg.encoder_codec_label.clone(),
                target_kbps: if c.adapt_target_kbps == 0 {
                    cfg.target_bitrate_kbps
                } else {
                    c.adapt_target_kbps
                },
                nominal_kbps: cfg.target_bitrate_kbps,
                frames_out: c.enc_frames,
                adapt_enabled: cfg.adapt_enabled,
                min_kbps: cfg.adapt_min_kbps,
                max_kbps: cfg.adapt_max_kbps,
                step_downs: c.adapt_step_downs,
                step_ups: c.adapt_step_ups,
                override_kbps: c.adapt_override_kbps,
            },
            preview: c.preview,
            uplink,
            ping: PingStats {
                target: cfg.ping_target.clone(),
                last_rtt_us: if c.ping_last_rtt_us == 0 {
                    None
                } else {
                    Some(c.ping_last_rtt_us)
                },
                success_count: c.ping_success_total,
                failure_count: c.ping_failure_total,
                last_success_age_us: age_of(c.now_us, c.ping_last_success_us),
            },
            pipeline: PipelineHealth {
                rollup: compute_rollup(c.publisher_connected, last_frame_age_ms, loss),
                uptime_us: c.now_us,
                restarts: c.restarts,
            },
        };
        self.prev_us = c.now_us;
        self.prev_bytes_in = c.bytes_in;
        self.prev_enc_bytes = c.enc_bytes;
        (snapshot, Rates { dt_us, down_bytes, enc_bytes, sent_bytes })
    }
}

/// Counters that have counted nothing.
pub open spec fn no_counts() -> Counters {
    Counters {
        now_us: 0,
        now_unix_ms: 0,
        publisher_connected: false,
        bytes_in: 0,
        frames_in: 0,
        last_frame_us: 0,
        session_started_us: 0,
        pts_anomalies: 0,
        enc_bytes: 0,
        enc_frames: 0,
        preview: PreviewStats { clients: 0, sent_frames: 0, sent_bytes: 0, dropped: 0 },
        restarts: 0,
        adapt_target_kbps: 0,
        adapt_step_downs: 0,
        adapt_step_ups: 0,
        adapt_override_kbps: 0,
        uplink: UplinkState::Idle,
        srt: None,
        ping_last_rtt_us: 0,
        ping_last_success_us: 0,
        ping_success_total: 0,
        ping_failure_total: 0,
    }
}

/// The snapshot that clients see before the first tick: the one of counters that
/// have counted nothing.
pub fn empty_snapshot(cfg: &CollectorConfig) -> (s: Snapshot)
    ensures
        is_snapshot_of(s, *cfg, no_counts()),
{
    Snapshot {
        ts_unix_ms: 0,
        downlink: DownlinkStats {
            connected: false,
            bytes_in: 0,
            frames_in: 0,
            last_frame_age_ms: None,
            session_uptime_us: None,
            pts_anomalies: 0,
        },
        encoder: EncoderStats {
            codec: cfg.encoder_codec_label.clone(),
            target_kbps: cfg.target_bitrate_kbps,
            nominal_kbps: cfg.target_bitrate_kbps,
            frames_out: 0,
            adapt_enabled: cfg.adapt_enabled,
            min_kbps: cfg.adapt_min_kbps,
            max_kbps: cfg.adapt_max_kbps,
            step_downs: 0,
            step_ups: 0,
            override_kbps: 0,
        },
        preview: PreviewStats { clients: 0, sent_frames: 0, sent_bytes: 0, dropped: 0 },
        uplink: UplinkStats {
            state: UplinkState::Idle,
            sent_bytes: 0,
            retransmitted_pkts: 0,
            lost_pkts: 0,
        },
        ping: PingStats {
            target: cfg.ping_target.clone(),
            last_rtt_us: None,
            success_count: 0,
            failure_count: 0,
            last_success_age_us: None,
        },
        pipeline: PipelineHealth { rollup: HealthRollup::Warn, uptime_us: 0, restarts: 0 },
    }
}

// ── laws ────────────────────────────────────────────────────────────────────

/// The publisher's bytes that a run of ticks reports as moved.
pub open spec fn total_down_bytes(state: Collector, ticks: Seq<Counters>) -> int
    decreases ticks.len(),
{
    if ticks.len() == 0 {
        0
    } else {
        rates_spec(state, ticks[0]).down_bytes + total_down_bytes(
            collector_after(state, ticks[0]),
            ticks.skip(1),
        )
    }
}

/// The publisher's byte counter never runs backwards over `ticks`.
pub open spec fn counts_up(state: Collector, ticks: Seq<Counters>) -> bool
    decreases ticks.len(),
{
    ticks.len() == 0 || (ticks[0].bytes_in >= state.prev_bytes_in && counts_up(
        collector_after(state, ticks[0]),
        ticks.skip(1),
    ))
}

/// No byte is counted twice and none is lost: over any run of ticks the reported
/// deltas add up to what the counter moved in all.
pub proof fn law_deltas_add_up(state: Collector, ticks: Seq<Counters>)
    requires
        ticks.len() > 0,
        counts_up(state, ticks),
    ensures
        total_down_bytes(state, ticks) == ticks.last().bytes_in - state.prev_bytes_in,
    decreases ticks.len(),
{
    let next = collector_after(state, ticks[0]);
    if ticks.len() > 1 {
        law_deltas_add_up(next, ticks.skip(1));
        assert(ticks.skip(1).last() == ticks.last());
    } else {
        assert(ticks.skip(1).len() == 0);
        assert(total_down_bytes(next, ticks.skip(1)) == 0);
    }
}

/// Health is `Healthy` only with a publisher whose last frame is fresh and whose path
/// is clean.
pub proof fn law_healthy_means_fresh_and_clean(connected: bool, age_ms: Option<u32>, loss: LossLevel)
    ensures
        rollup_spec(connected, age_ms, loss) == HealthRollup::Healthy <==> connected && (age_ms matches Some(
            age,
        ) && age <= 500) && loss == LossLevel::Low,
{
}

/// In every snapshot, a thing that has not happened has no age, and one that has
/// happened has its own.
pub proof fn law_ages_tell_what_has_happened(s: Snapshot, cfg: CollectorConfig, c: Counters)
    requires
        is_snapshot_of(s, cfg, c),
    ensures
        s.downlink.last_frame_age_ms is None <==> c.last_frame_us == 0,
        s.downlink.last_frame_age_ms matches Some(ms) ==> ms == (since(c.now_us, c.last_frame_us)
            / 1000) % 0x1_0000_0000,
        s.downlink.session_uptime_us is None <==> c.session_started_us == 0,
        s.downlink.session_uptime_us matches Some(us) ==> us == since(
            c.now_us,
            c.session_started_us,
        ),
        s.ping.last_rtt_us is None <==> c.ping_last_rtt_us == 0,
        s.ping.last_rtt_us matches Some(us) ==> us == c.ping_last_rtt_us,
        s.ping.last_success_age_us is None <==> c.ping_last_success_us == 0,
        s.ping.last_success_age_us matches Some(us) ==> us == since(
            c.now_us,
            c.ping_last_success_us,
        ),
{
}

/// The encoder's byte counter never runs backwards over `ticks`.
pub open spec fn enc_counts_up(prev: u64, ticks: Seq<Counters>) -> bool
    decreases ticks.len(),
{
    ticks.len() == 0 || (ticks[0].enc_bytes >= prev && enc_counts_up(
        ticks[0].enc_bytes,
        ticks.skip(1),
    ))
}

/// There is an SRT element at each of `ticks`, and its byte counter never runs backwards.
pub open spec fn sent_counts_up(prev: u64, ticks: Seq<Counters>) -> bool
    decreases ticks.len(),
{
    ticks.len() == 0 || (ticks[0].srt matches Some(s) && s.sent_bytes >= prev && sent_counts_up(
        s.sent_bytes,
        ticks.skip(1),
    ))
}

/// The encoder's bytes that are reported over a run of ticks.
pub open spec fn total_enc_bytes(state: Collector, ticks: Seq<Counters>) -> int
    decreases ticks.len(),
{
    if ticks.len() == 0 {
        0
    } else {
        rates_spec(state, ticks[0]).enc_bytes + total_enc_bytes(
            collector_after(state, ticks[0]),
            ticks.skip(1),
        )
    }
}

/// The SRT element's bytes that are reported over a run of ticks.
pub open spec fn total_sent_bytes(state: Collector, ticks: Seq<Counters>) -> int
    decreases ticks.len(),
{
    if ticks.len() == 0 {
        0
    } else {
        total_sent_bytes(collector_after(state, ticks[0]), ticks.skip(1)) + match rates_spec(
            state,
            ticks[0],
        ).sent_bytes {
            Some(n) => n as int,
            None => 0,
        }
    }
}

/// The same holds of what the encoder made: over any run of ticks the reported deltas
/// add up to what its counter moved in all.
pub proof fn law_encoder_deltas_add_up(state: Collector, ticks: Seq<Counters>)
    requires
        ticks.len() > 0,
        enc_counts_up(state.prev_enc_bytes, ticks),
    ensures
        total_enc_bytes(state, ticks) == ticks.last().enc_bytes - state.prev_enc_bytes,
    decreases ticks.len(),
{
    let next = collector_after(state, ticks[0]);
    if ticks.len() > 1 {
        law_encoder_deltas_add_up(next, ticks.skip(1));
        assert(ticks.skip(1).last() == ticks.last());
    } else {
        assert(ticks.skip(1).len() == 0);
        assert(total_enc_bytes(next, ticks.skip(1)) == 0);
    }
}

/// And of what SRT sent, while there is an SRT element.
pub proof fn law_sent_deltas_add_up(state: Collector, ticks: Seq<Counters>)
    requires
        ticks.len() > 0,
        sent_counts_up(state.prev_srt_sent_bytes, ticks),
    ensures
        ticks.last().srt matches Some(s) && total_sent_bytes(state, ticks) == s.sent_bytes
            - state.prev_srt_sent_bytes,
    decreases ticks.len(),
{
    let next = collector_after(state, ticks[0]);
    if ticks.len() > 1 {
        law_sent_deltas_add_up(next, ticks.skip(1));
        assert(ticks.skip(1).last() == ticks.last());
    } else {
        assert(ticks.skip(1).len() == 0);
        assert(total_sent_bytes(next, ticks.skip(1)) == 0);
    }
}

/// Each tick reports what moved since the one before it: two ticks in a row, whatever
/// came earlier. Without an SRT element nothing is reported of it, and a new one starts
/// from zero.
pub proof fn law_ticks_report_what_moved(state: Collector, a: Counters, b: Counters)
    requires
        a.bytes_in <= b.bytes_in,
        a.enc_bytes <= b.enc_bytes,
    ensures
        ({
            let rates = rates_spec(collector_after(state, a), b);
            &&& rates.down_bytes == b.bytes_in - a.bytes_in
            &&& rates.enc_bytes == b.enc_bytes - a.enc_bytes
            &&& rates.sent_bytes is None <==> b.srt is None
            &&& b.srt matches Some(s) ==> (rates.sent_bytes matches Some(n) && match a.srt {
                Some(before) => if s.sent_bytes >= before.sent_bytes {
                    n == s.sent_bytes - before.sent_bytes
                } else {
                    n == 0
                },
                None => n == s.sent_bytes,
            })
            &&& a.now_us > 0 && b.now_us - a.now_us >= 50_000 ==> rates.dt_us == b.now_us
                - a.now_us
            &&& a.now_us > 0 && b.now_us - a.now_us < 50_000 ==> rates.dt_us == 50_000
            &&& a.now_us == 0 ==> rates.dt_us == 1_000_000
        }),
{
}

/// The health that is shown, from the worst to the best: bad with a publisher whose last
/// frame is more than two seconds old, or whose frames are fresh and whose loss is high;
/// healthy with fresh frames and low loss; and a warning in every other case.
pub proof fn law_health(connected: bool, age_ms: Option<u32>, loss: LossLevel)
    ensures
        rollup_spec(connected, age_ms, loss) == HealthRollup::Bad <==> connected && (
        age_ms matches Some(age) && (age > 2000 || (age <= 500 && loss == LossLevel::High))),
        rollup_spec(connected, age_ms, loss) == HealthRollup::Healthy <==> connected && (
        age_ms matches Some(age) && age <= 500) && loss == LossLevel::Low,
{
}

/// A snapshot shows the counters as they were read: none is altered, left out or taken
/// for another. The target that is shown is the adapter's, or the nominal one while the
/// adapter has none, and without an SRT element its figures are zero.
pub proof fn law_snapshots_show_the_counters(s: Snapshot, cfg: CollectorConfig, c: Counters)
    requires
        is_snapshot_of(s, cfg, c),
    ensures
        s.ts_unix_ms == c.now_unix_ms,
        s.downlink.connected == c.publisher_connected,
        s.downlink.bytes_in == c.bytes_in,
        s.downlink.frames_in == c.frames_in,
        s.downlink.pts_anomalies == c.pts_anomalies,
        s.encoder.codec == cfg.encoder_codec_label,
        s.encoder.target_kbps == c.adapt_target_kbps || (c.adapt_target_kbps == 0
            && s.encoder.target_kbps == cfg.target_bitrate_kbps),
        c.adapt_target_kbps == 0 ==> s.encoder.target_kbps == cfg.target_bitrate_kbps,
        s.encoder.nominal_kbps == cfg.target_bitrate_kbps,
        s.encoder.frames_out == c.enc_frames,
        s.encoder.adapt_enabled == cfg.adapt_enabled,
        s.encoder.min_kbps == cfg.adapt_min_kbps,
        s.encoder.max_kbps == cfg.adapt_max_kbps,
        s.encoder.step_downs == c.adapt_step_downs,
        s.encoder.step_ups == c.adapt_step_ups,
        s.encoder.override_kbps == c.adapt_override_kbps,
        s.preview.clients == c.preview.clients,
        s.preview.sent_frames == c.preview.sent_frames,
        s.preview.sent_bytes == c.preview.sent_bytes,
        s.preview.dropped == c.preview.dropped,
        s.uplink.state == c.uplink,
        c.srt matches Some(srt) ==> s.uplink.sent_bytes == srt.sent_bytes
            && s.uplink.retransmitted_pkts == srt.retransmitted_pkts && s.uplink.lost_pkts
            == srt.lost_pkts,
        c.srt is None ==> s.uplink.sent_bytes == 0 && s.uplink.retransmitted_pkts == 0
            && s.uplink.lost_pkts == 0,
        s.ping.target == cfg.ping_target,
        s.ping.success_count == c.ping_success_total,
        s.ping.failure_count == c.ping_failure_total,
        s.pipeline.uptime_us == c.now_us,
        s.pipeline.restarts == c.restarts,
        c.srt matches Some(srt) ==> s.pipeline.rollup == rollup_spec(
            s.downlink.connected,
            s.downlink.last_frame_age_ms,
            srt.loss,
        ),
        c.srt is None ==> s.pipeline.rollup == rollup_spec(
            s.downlink.connected,
            s.downlink.last_frame_age_ms,
            LossLevel::Low,
        ),
{
}

/// An age is the time since its moment, and no age is negative.
pub proof fn law_ages_are_elapsed_time(now: u64, moment: u64)
    ensures
        moment == 0 ==> age(now, moment) is None,
        0 < moment <= now ==> (age(now, moment) matches Some(us) && us == now - moment),
        moment > now ==> age(now, moment) == Some(0u64),
        0 < moment <= now && now - moment < 4_294_967_296_000 ==> (frame_age_ms(
            now,
            moment,
        ) matches Some(ms) && ms == (now - moment) / 1000),
{
}

/// Before anything is counted, every counter is zero, nothing is connected, and no
/// moment has come.
pub proof fn law_nothing_is_counted_at_first(s: Snapshot, cfg: CollectorConfig)
    requires
        is_snapshot_of(s, cfg, no_counts()),
    ensures
        s.ts_unix_ms == 0,
        !s.downlink.connected,
        s.downlink.bytes_in == 0 && s.downlink.frames_in == 0 && s.downlink.pts_anomalies == 0,
        s.downlink.last_frame_age_ms is None && s.downlink.session_uptime_us is None,
        s.encoder.target_kbps == cfg.target_bitrate_kbps,
        s.encoder.frames_out == 0 && s.encoder.step_downs == 0 && s.encoder.step_ups == 0,
        s.encoder.override_kbps == 0,
        s.preview.clients == 0 && s.preview.sent_frames == 0 && s.preview.sent_bytes == 0,
        s.preview.dropped == 0,
        s.uplink.state == UplinkState::Idle,
        s.ping.last_rtt_us is None && s.ping.last_success_age_us is None,
        s.ping.success_count == 0 && s.ping.failure_count == 0,
        s.pipeline.rollup == HealthRollup::Warn,
        s.pipeline.uptime_us == 0 && s.pipeline.restarts == 0,
{
}

} // verus!
