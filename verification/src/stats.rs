//! What the dashboard is told: the parts of a snapshot that are counted rather
//! than smoothed. Durations are whole microseconds.

use vstd::prelude::*;

verus! {

/// The state of the SRT uplink.
#[derive(Debug, Clone, Copy, PartialEq, Eq, Structural)]
pub enum UplinkState {
    Idle,
    Connecting,
    Connected,
    Lost,
}

/// The number that stands for an uplink state in shared memory.
pub open spec fn uplink_code(s: UplinkState) -> u8 {
    match s {
        UplinkState::Idle => 0,
        UplinkState::Connecting => 1,
        UplinkState::Connected => 2,
        UplinkState::Lost => 3,
    }
}

impl UplinkState {
    /// The number that stands for this state in shared memory.
    pub fn as_u8(self) -> (v: u8)
        ensures
            v == uplink_code(self),
    {
        match self {
            UplinkState::Idle => 0,
            UplinkState::Connecting => 1,
            UplinkState::Connected => 2,
            UplinkState::Lost => 3,
        }
    }

    /// The state that a number stands for; any number that stands for none
    /// counts as idle.
    pub fn from_u8(v: u8) -> (s: UplinkState)
        ensures
            v <= 3 ==> uplink_code(s) == v,
            v > 3 ==> s == UplinkState::Idle,
    {
        match v {
            1 => UplinkState::Connecting,
            2 => UplinkState::Connected,
            3 => UplinkState::Lost,
            _ => UplinkState::Idle,
        }
    }
}

/// Overall health, as the dashboard colours it.
#[derive(Debug, Clone, Copy, PartialEq, Eq, Structural)]
pub enum HealthRollup {
    Healthy,
    Warn,
    Bad,
}

/// How the smoothed packet loss compares to the two alarm thresholds.
#[derive(Debug, Clone, Copy, PartialEq, Eq, Structural)]
pub enum LossLevel {
    /// At most 0.5 percent.
    Low,
    /// More than 0.5 percent, at most 5 percent.
    Elevated,
    /// More than 5 percent.
    High,
}

/// The publisher's side.
#[derive(Debug, Clone, Copy, PartialEq, Eq, Structural)]
pub struct DownlinkStats {
    pub connected: bool,
    pub bytes_in: u64,
    pub frames_in: u64,
    pub last_frame_age_ms: Option<u32>,
    pub session_uptime_us: Option<u64>,
    pub pts_anomalies: u64,
}

/// The encoder and its adapter.
#[derive(Debug, Clone, PartialEq, Eq)]
pub struct EncoderStats {
    pub codec: String,
    /// The target bitrate in effect.
    pub target_kbps: u32,
    /// The target set at startup.
    pub nominal_kbps: u32,
    pub frames_out: u64,
    pub adapt_enabled: bool,
    pub min_kbps: u32,
    pub max_kbps: u32,
    pub step_downs: u64,
    pub step_ups: u64,
    /// Operator-set bitrate, zero for none.
    pub override_kbps: u32,
}

/// The browser preview.
#[derive(Debug, Clone, Copy, PartialEq, Eq, Structural)]
pub struct PreviewStats {
    pub clients: u32,
    pub sent_frames: u64,
    pub sent_bytes: u64,
    pub dropped: u64,
}

/// The SRT side.
#[derive(Debug, Clone, Copy, PartialEq, Eq, Structural)]
pub struct UplinkStats {
    pub state: UplinkState,
    pub sent_bytes: u64,
    pub retransmitted_pkts: u64,
    pub lost_pkts: u64,
}

/// The reachability probe.
#[derive(Debug, Clone, PartialEq, Eq)]
pub struct PingStats {
    pub target: String,
    pub last_rtt_us: Option<u64>,
    pub success_count: u64,
    pub failure_count: u64,
    pub last_success_age_us: Option<u64>,
}

/// The process as a whole.
#[derive(Debug, Clone, Copy, PartialEq, Eq, Structural)]
pub struct PipelineHealth {
    pub rollup: HealthRollup,
    pub uptime_us: u64,
    pub restarts: u32,
}

/// One second's view of everything above.
#[derive(Debug, Clone, PartialEq, Eq)]
pub struct Snapshot {
    pub ts_unix_ms: u64,
    pub downlink: DownlinkStats,
    pub encoder: EncoderStats,
    pub preview: PreviewStats,
    pub uplink: UplinkStats,
    pub ping: PingStats,
    pub pipeline: PipelineHealth,
}

/// A state written to shared memory is read back as it was written.
pub proof fn law_uplink_state_reads_back(s: UplinkState, t: UplinkState)
    requires
        uplink_code(s) == uplink_code(t),
    ensures
        s == t,
        uplink_code(s) <= 3,
{
}

/// The numbers that stand for the states.
pub proof fn law_uplink_codes()
    ensures
        uplink_code(UplinkState::Idle) == 0,
        uplink_code(UplinkState::Connecting) == 1,
        uplink_code(UplinkState::Connected) == 2,
        uplink_code(UplinkState::Lost) == 3,
{
}

} // verus!
