//! The reachability probe: what each connection attempt adds to the statistics.

use vstd::prelude::*;

verus! {

/// How often to probe, in milliseconds.
pub const INTERVAL_MS: u64 = 2_000;

/// How long one attempt may take, in milliseconds.
pub const TIMEOUT_MS: u64 = 3_000;

/// How an attempt to connect ended.
#[derive(Debug, Clone, Copy, PartialEq, Eq, Structural)]
pub enum PingOutcome {
    /// Connected after this many microseconds.
    Connected { rtt_us: u128 },
    Failed,
    TimedOut,
}

/// What the probe keeps. Times are microseconds since the process started; zero
/// means never.
#[derive(Debug, Clone, Copy, PartialEq, Eq, Structural)]
pub struct PingCounters {
    pub last_rtt_us: u64,
    pub last_success_us: u64,
    pub success_total: u64,
    pub failure_total: u64,
}

/// One more, as a 64-bit counter has it.
pub open spec fn next_count(n: u64) -> u64 {
    if n == u64::MAX {
        0
    } else {
        (n + 1) as u64
    }
}

/// The counters after an attempt that ended at `now_us`.
pub open spec fn after_ping(c: PingCounters, outcome: PingOutcome, now_us: u64) -> PingCounters {
    match outcome {
        PingOutcome::Connected { rtt_us } => PingCounters {
            last_rtt_us: (rtt_us % 0x1_0000_0000_0000_0000) as u64,
            last_success_us: now_us,
            success_total: next_count(c.success_total),
            failure_total: c.failure_total,
        },
        PingOutcome::Failed | PingOutcome::TimedOut => PingCounters {
            failure_total: next_count(c.failure_total),
            ..c
        },
    }
}

impl PingCounters {
    /// Counts an attempt that ended at `now_us`.
    pub fn count(&mut self, outcome: PingOutcome, now_us: u64)
        ensures
            *final(self) == after_ping(*old(self), outcome, now_us),
    {
        match outcome {
            PingOutcome::Connected { rtt_us } => {
                assert(rtt_us as u64 == rtt_us % 0x1_0000_0000_0000_0000) by (bit_vector);
                self.last_rtt_us = #[verifier::truncate] (rtt_us as u64);
                self.last_success_us = now_us;
                self.success_total = self.success_total.wrapping_add(1);
            },
            PingOutcome::Failed | PingOutcome::TimedOut => {
                self.failure_total = self.failure_total.wrapping_add(1);
            },
        }
    }
}

// ── laws ────────────────────────────────────────────────────────────────────

/// Each attempt adds one to exactly one of the two totals. A failed one leaves the
/// last time and the last success as they were; a successful one replaces both.
pub proof fn law_an_attempt_counts_once(c: PingCounters, outcome: PingOutcome, now_us: u64)
    ensures
        ({
            let after = after_ping(c, outcome, now_us);
            match outcome {
                PingOutcome::Connected { rtt_us } => {
                    &&& after.success_total == next_count(c.success_total)
                    &&& after.failure_total == c.failure_total
                    &&& rtt_us <= u64::MAX ==> after.last_rtt_us == rtt_us
                    &&& after.last_success_us == now_us
                },
                PingOutcome::Failed | PingOutcome::TimedOut => {
                    &&& after.success_total == c.success_total
                    &&& after.failure_total == next_count(c.failure_total)
                    &&& after.last_rtt_us == c.last_rtt_us
                    &&& after.last_success_us == c.last_success_us
                },
            }
        }),
{
}

/// The counters after a run of attempts, each with the moment of its end.
pub open spec fn after_pings(c: PingCounters, attempts: Seq<(PingOutcome, u64)>) -> PingCounters
    decreases attempts.len(),
{
    if attempts.len() == 0 {
        c
    } else {
        let (outcome, now_us) = attempts.last();
        after_ping(after_pings(c, attempts.drop_last()), outcome, now_us)
    }
}

/// The attempts of a run that connected.
pub open spec fn connected(attempts: Seq<(PingOutcome, u64)>) -> nat
    decreases attempts.len(),
{
    if attempts.len() == 0 {
        0
    } else if attempts.last().0 is Connected {
        connected(attempts.drop_last()) + 1
    } else {
        connected(attempts.drop_last())
    }
}

/// Over a run of attempts from zero, the totals are the attempts that connected and
/// those that did not, as long as 64 bits hold them.
pub proof fn law_totals_count_the_attempts(c: PingCounters, attempts: Seq<(PingOutcome, u64)>)
    requires
        c.success_total == 0,
        c.failure_total == 0,
        attempts.len() <= u64::MAX,
    ensures
        after_pings(c, attempts).success_total == connected(attempts),
        after_pings(c, attempts).failure_total == attempts.len() - connected(attempts),
        connected(attempts) <= attempts.len(),
    decreases attempts.len(),
{
    if attempts.len() > 0 {
        law_totals_count_the_attempts(c, attempts.drop_last());
    }
}

/// Totals go up by one, and a full one starts over; the probe runs every two seconds
/// and gives an attempt three.
pub proof fn law_totals_go_up_by_one(n: u64)
    ensures
        n < 0xFFFF_FFFF_FFFF_FFFF ==> next_count(n) == n + 1,
        n == 0xFFFF_FFFF_FFFF_FFFF ==> next_count(n) == 0,
        INTERVAL_MS == 2000,
        TIMEOUT_MS == 3000,
{
}

} // verus!
