//! Adaptive bitrate: steps the encoder's target down when the path is bad for
//! several seconds and up when it has been clean for about half a minute, a
//! quarter at a time, and never twice within the cooldown.

use vstd::prelude::*;

verus! {

/// How long after a change the target is left alone, in microseconds.
pub const COOLDOWN_US: i128 = 10_000_000;

/// Bad ticks that lead to a step down.
pub const BAD_TICKS_TO_STEP_DOWN: u32 = 5;

/// Clean ticks that lead to a step up.
pub const GOOD_TICKS_TO_STEP_UP: u32 = 30;

/// Percent of the target that a step down leaves.
pub const STEP_DOWN_MULT: u32 = 75;

/// Percent of the target that a step up makes.
pub const STEP_UP_MULT: u32 = 125;

pub const PERCENT: u32 = 100;

/// What the adapter is told at startup.
#[derive(Debug, Clone, Copy, PartialEq, Eq, Structural)]
pub struct AdapterConfig {
    pub enabled: bool,
    pub nominal_kbps: u32,
    pub min_kbps: u32,
    pub max_kbps: u32,
}

/// How a tick's loss and send buffer look.
#[derive(Debug, Clone, Copy, PartialEq, Eq, Structural)]
pub enum PathClass {
    /// Loss above 1 percent, or the send buffer more than 70 percent full.
    Bad,
    /// Loss below 0.1 percent and the send buffer less than 30 percent full.
    Good,
    /// Neither: degraded, but not bad.
    Middling,
}

/// What the adapter sees at a tick.
#[derive(Debug, Clone, Copy, PartialEq, Eq, Structural)]
pub struct AdaptInput {
    /// Operator-set bitrate, zero for none.
    pub override_kbps: u32,
    /// Whether a publisher is connected.
    pub connected: bool,
    pub path: PathClass,
    pub now_us: u64,
}

/// What the adapter carries from tick to tick. The time of the last change is
/// signed because it starts out one cooldown before the first tick.
#[derive(Debug, Clone, Copy, PartialEq, Eq, Structural)]
pub struct Adapter {
    pub target_kbps: u32,
    pub bad_streak: u32,
    pub good_streak: u32,
    pub last_change_us: i128,
}

/// Which of the two step counters a step belongs to.
#[derive(Debug, Clone, Copy, PartialEq, Eq, Structural)]
pub enum StepKind {
    Down,
    Up,
}

/// What is to be done after a tick.
#[derive(Debug, Clone, Copy, PartialEq, Eq, Structural)]
pub enum AdaptAction {
    /// Nothing.
    Hold,
    /// Publish the target and set the encoder to it.
    Apply { kbps: u32 },
    /// Publish the target; there is no encoder to set.
    Publish { kbps: u32 },
    /// Count the step, publish the target, set the encoder and log the change.
    Step { from_kbps: u32, to_kbps: u32, kind: StepKind },
}

/// `v` moved into `[lo, hi]`.
pub open spec fn clamped(v: u32, lo: u32, hi: u32) -> u32 {
    if v < lo {
        lo
    } else if v > hi {
        hi
    } else {
        v
    }
}

/// `v` moved into `[lo, hi]`.
pub fn clamp(v: u32, lo: u32, hi: u32) -> (r: u32)
    requires
        lo <= hi,
    ensures
        r == clamped(v, lo, hi),
{
    if v < lo {
        lo
    } else if v > hi {
        hi
    } else {
        v
    }
}

/// One more, up to the largest number.
pub open spec fn bump(n: u32) -> u32 {
    if n < u32::MAX {
        (n + 1) as u32
    } else {
        n
    }
}

/// One less, down to zero.
pub open spec fn decay(n: u32) -> u32 {
    if n > 0 {
        (n - 1) as u32
    } else {
        n
    }
}

/// The streak of bad ticks after one more tick.
pub open spec fn bad_streak_after(a: Adapter, path: PathClass) -> u32 {
    match path {
        PathClass::Bad => bump(a.bad_streak),
        PathClass::Good => 0,
        PathClass::Middling => decay(a.bad_streak),
    }
}

/// The streak of good ticks after one more tick.
pub open spec fn good_streak_after(a: Adapter, path: PathClass) -> u32 {
    match path {
        PathClass::Bad => 0,
        PathClass::Good => bump(a.good_streak),
        PathClass::Middling => decay(a.good_streak),
    }
}

/// Three quarters of the target, but not below the floor.
pub open spec fn stepped_down(target: u32, cfg: AdapterConfig) -> int {
    let t = (target * STEP_DOWN_MULT) / PERCENT as int;
    if t >= cfg.min_kbps {
        t
    } else {
        cfg.min_kbps as int
    }
}

/// Five quarters of the target, but not above the ceiling.
pub open spec fn stepped_up(target: u32, cfg: AdapterConfig) -> int {
    let t = (target * STEP_UP_MULT) / PERCENT as int;
    if t <= cfg.max_kbps {
        t
    } else {
        cfg.max_kbps as int
    }
}

/// The step that is due at this tick, if any: there is a publisher and no
/// override, the cooldown is over, and a streak is long enough.
pub open spec fn due(a: Adapter, i: AdaptInput) -> Option<StepKind> {
    if i.override_kbps != 0 || !i.connected || i.now_us - a.last_change_us < COOLDOWN_US {
        None
    } else if bad_streak_after(a, i.path) >= BAD_TICKS_TO_STEP_DOWN {
        Some(StepKind::Down)
    } else if good_streak_after(a, i.path) >= GOOD_TICKS_TO_STEP_UP {
        Some(StepKind::Up)
    } else {
        None
    }
}

/// Where a due step leads.
pub open spec fn candidate(a: Adapter, cfg: AdapterConfig, kind: StepKind) -> u32 {
    match kind {
        StepKind::Down => stepped_down(a.target_kbps, cfg) as u32,
        StepKind::Up => stepped_up(a.target_kbps, cfg) as u32,
    }
}

/// The adapter and what is to be done, after a tick. An adapter that is not enabled
/// does nothing.
pub open spec fn tick_spec(a: Adapter, cfg: AdapterConfig, i: AdaptInput) -> (
    Adapter,
    AdaptAction,
) {
    if !cfg.enabled {
        (a, AdaptAction::Hold)
    } else if i.override_kbps != 0 {
        let pin = clamped(i.override_kbps, cfg.min_kbps, cfg.max_kbps);
        if a.target_kbps == pin {
            (Adapter { bad_streak: 0, good_streak: 0, ..a }, AdaptAction::Hold)
        } else {
            (
                Adapter {
                    target_kbps: pin,
                    bad_streak: 0,
                    good_streak: 0,
                    last_change_us: i.now_us as i128,
                },
                AdaptAction::Apply { kbps: pin },
            )
        }
    } else if !i.connected {
        (
            Adapter { target_kbps: cfg.nominal_kbps, bad_streak: 0, good_streak: 0, ..a },
            AdaptAction::Publish { kbps: cfg.nominal_kbps },
        )
    } else {
        let counted = Adapter {
            bad_streak: bad_streak_after(a, i.path),
            good_streak: good_streak_after(a, i.path),
            ..a
        };
        match due(a, i) {
            Some(kind) if candidate(a, cfg, kind) != a.target_kbps => (
                Adapter {
                    target_kbps: candidate(a, cfg, kind),
                    bad_streak: 0,
                    good_streak: 0,
                    last_change_us: i.now_us as i128,
                },
                AdaptAction::Step {
                    from_kbps: a.target_kbps,
                    to_kbps: candidate(a, cfg, kind),
                    kind,
                },
            ),
            _ => (counted, AdaptAction::Hold),
        }
    }
}

/// The arithmetic of this tick stays within 32 bits, and the bounds are in order
/// where they are needed.
pub open spec fn fits(a: Adapter, cfg: AdapterConfig, i: AdaptInput) -> bool {
    cfg.enabled ==> {
        &&& i.override_kbps != 0 ==> cfg.min_kbps <= cfg.max_kbps
        &&& due(a, i) == Some(StepKind::Down) ==> a.target_kbps * STEP_DOWN_MULT <= u32::MAX
        &&& due(a, i) == Some(StepKind::Up) ==> a.target_kbps * STEP_UP_MULT <= u32::MAX
    }
}

impl Adapter {
    /// The last change lies at most one cooldown before the process started.
    pub open spec fn wf(self) -> bool {
        -COOLDOWN_US <= self.last_change_us <= u64::MAX
    }

    /// An adapter at the nominal target, free to decide at once.
    pub fn new(cfg: &AdapterConfig, now_us: u64) -> (a: Adapter)
        ensures
            a.wf(),
            a == (Adapter {
                target_kbps: cfg.nominal_kbps,
                bad_streak: 0,
                good_streak: 0,
                last_change_us: (now_us - COOLDOWN_US) as i128,
            }),
    {
        Adapter {
            target_kbps: cfg.nominal_kbps,
            bad_streak: 0,
            good_streak: 0,
            last_change_us: now_us as i128 - COOLDOWN_US,
        }
    }

    /// What is to be done before the first tick: the target is published where the
    /// adapter is enabled.
    pub fn opening(&self, cfg: &AdapterConfig) -> (action: AdaptAction)
        ensures
            action == if cfg.enabled {
                AdaptAction::Publish { kbps: self.target_kbps }
            } else {
                AdaptAction::Hold
            },
    {
        if cfg.enabled {
            AdaptAction::Publish { kbps: self.target_kbps }
        } else {
            AdaptAction::Hold
        }
    }

    /// Whether a tick's arithmetic fits.
    pub fn fits(&self, cfg: &AdapterConfig, i: &AdaptInput) -> (yes: bool)
        requires
            self.wf(),
        ensures
            yes == fits(*self, *cfg, *i),
    {
        if !cfg.enabled {
            return true;
        }
        if i.override_kbps != 0 {
            return cfg.min_kbps <= cfg.max_kbps;
        }
        if !i.connected || i.now_us as i128 - self.last_change_us < COOLDOWN_US {
            return true;
        }
        let (bad, good) = self.streaks_after(i.path);
        if bad >= BAD_TICKS_TO_STEP_DOWN {
            self.target_kbps <= u32::MAX / STEP_DOWN_MULT
        } else if good >= GOOD_TICKS_TO_STEP_UP {
            self.target_kbps <= u32::MAX / STEP_UP_MULT
        } else {
            true
        }
    }

    fn streaks_after(&self, path: PathClass) -> (r: (u32, u32))
        ensures
            r.0 == bad_streak_after(*self, path),
            r.1 == good_streak_after(*self, path),
    {
        match path {
            PathClass::Bad => (self.bad_streak.saturating_add(1), 0),
            PathClass::Good => (0, self.good_streak.saturating_add(1)),
            PathClass::Middling => (
                self.bad_streak.saturating_sub(1),
                self.good_streak.saturating_sub(1),
            ),
        }
    }

    /// One tick of the adapter.
    pub fn tick(&mut self, cfg: &AdapterConfig, i: &AdaptInput) -> (action: AdaptAction)
        requires
            fits(*old(self), *cfg, *i),
            old(self).wf(),
        ensures
            (*final(self), action) == tick_spec(*old(self), *cfg, *i),
            final(self).wf(),
    {
        if !cfg.enabled {
            return AdaptAction::Hold;
        }
        if i.override_kbps != 0 {
            let pin: u32 = clamp(i.override_kbps, cfg.min_kbps, cfg.max_kbps);
            self.bad_streak = 0;
            self.good_streak = 0;
            if self.target_kbps != pin {
                self.target_kbps = pin;
                self.last_change_us = i.now_us as i128;
                return AdaptAction::Apply { kbps: pin };
            }
            return AdaptAction::Hold;
        }
        if !i.connected {
            self.target_kbps = cfg.nominal_kbps;
            self.bad_streak = 0;
            self.good_streak = 0;
            return AdaptAction::Publish { kbps: cfg.nominal_kbps };
        }
        let (bad, good) = self.streaks_after(i.path);
        self.bad_streak = bad;
        self.good_streak = good;
        if i.now_us as i128 - self.last_change_us < COOLDOWN_US {
            return AdaptAction::Hold;
        }
        let from_kbps: u32 = self.target_kbps;
        let (to_kbps, kind) = if bad >= BAD_TICKS_TO_STEP_DOWN {
            let t: u32 = from_kbps * STEP_DOWN_MULT / PERCENT;
            (
                if t >= cfg.min_kbps {
                    t
                } else {
                    cfg.min_kbps
                },
                StepKind::Down,
            )
        } else if good >= GOOD_TICKS_TO_STEP_UP {
            let t: u32 = from_kbps * STEP_UP_MULT / PERCENT;
            (
                if t <= cfg.max_kbps {
                    t
                } else {
                    cfg.max_kbps
                },
                StepKind::Up,
            )
        } else {
            return AdaptAction::Hold;
        };
        if to_kbps == from_kbps {
            return AdaptAction::Hold;
        }
        self.target_kbps = to_kbps;
        self.last_change_us = i.now_us as i128;
        self.bad_streak = 0;
        self.good_streak = 0;
        AdaptAction::Step { from_kbps, to_kbps, kind }
    }
}

// ── laws ────────────────────────────────────────────────────────────────────

/// The bounds are in order and enclose the nominal target, and a step up from
/// the ceiling stays within 32 bits.
pub open spec fn sound(cfg: AdapterConfig) -> bool {
    cfg.min_kbps <= cfg.nominal_kbps <= cfg.max_kbps && cfg.max_kbps * STEP_UP_MULT <= u32::MAX
}

/// The target lies within the bounds.
pub open spec fn in_bounds(a: Adapter, cfg: AdapterConfig) -> bool {
    cfg.min_kbps <= a.target_kbps <= cfg.max_kbps
}

/// An adapter that is not enabled changes nothing and does nothing, whatever it sees.
pub proof fn law_disabled_changes_nothing(a: Adapter, cfg: AdapterConfig, i: AdaptInput)
    requires
        !cfg.enabled,
    ensures
        fits(a, cfg, i),
        tick_spec(a, cfg, i) == (a, AdaptAction::Hold),
{
}

/// With sound bounds, the target never leaves them, whatever the adapter sees,
/// and its arithmetic never overflows.
pub proof fn law_target_stays_in_bounds(a: Adapter, cfg: AdapterConfig, i: AdaptInput)
    requires
        sound(cfg),
        in_bounds(a, cfg),
    ensures
        fits(a, cfg, i),
        in_bounds(tick_spec(a, cfg, i).0, cfg),
{
    let t = a.target_kbps as int;
    assert(t * STEP_UP_MULT <= cfg.max_kbps * STEP_UP_MULT) by (nonlinear_arith)
        requires
            t <= cfg.max_kbps,
    ;
    assert(STEP_UP_MULT == 125 && STEP_DOWN_MULT == 75 && PERCENT == 100);
}

/// With sound bounds, a step down lowers the target by a quarter or to the
/// floor, and a step up raises it by a quarter or to the ceiling.
pub proof fn law_steps_are_quarters(a: Adapter, cfg: AdapterConfig, i: AdaptInput)
    requires
        sound(cfg),
        in_bounds(a, cfg),
    ensures
        tick_spec(a, cfg, i).1 matches AdaptAction::Step { from_kbps, to_kbps, kind } ==> {
            &&& from_kbps == a.target_kbps
            &&& to_kbps == tick_spec(a, cfg, i).0.target_kbps
            &&& kind == StepKind::Down ==> to_kbps < from_kbps && (to_kbps == from_kbps * 3 / 4
                || to_kbps == cfg.min_kbps)
            &&& kind == StepKind::Up ==> to_kbps > from_kbps && (to_kbps == from_kbps * 5 / 4
                || to_kbps == cfg.max_kbps)
        },
{
    law_target_stays_in_bounds(a, cfg, i);
    assert(STEP_UP_MULT == 125 && STEP_DOWN_MULT == 75 && PERCENT == 100);
}

/// After a change the target is left alone for the cooldown: a step comes no
/// sooner, whatever the path looks like.
pub proof fn law_cooldown(a: Adapter, cfg: AdapterConfig, i: AdaptInput)
    ensures
        tick_spec(a, cfg, i).1 is Step ==> i.now_us - a.last_change_us >= COOLDOWN_US,
        tick_spec(a, cfg, i).1 is Step || tick_spec(a, cfg, i).1 is Apply
            ==> tick_spec(a, cfg, i).0.last_change_us == i.now_us,
        !(tick_spec(a, cfg, i).1 is Step || tick_spec(a, cfg, i).1 is Apply)
            ==> tick_spec(a, cfg, i).0.last_change_us == a.last_change_us,
{
}

/// While the operator pins a bitrate, the adapter takes no step of its own and
/// its target is the pin, moved into the bounds.
pub proof fn law_pin_holds(a: Adapter, cfg: AdapterConfig, i: AdaptInput)
    requires
        cfg.enabled,
        i.override_kbps != 0,
    ensures
        !(tick_spec(a, cfg, i).1 is Step),
        tick_spec(a, cfg, i).0.target_kbps == clamped(
            i.override_kbps,
            cfg.min_kbps,
            cfg.max_kbps,
        ),
{
}

/// Without a publisher the target goes back to nominal, so that each session
/// starts there.
pub proof fn law_session_starts_at_nominal(a: Adapter, cfg: AdapterConfig, i: AdaptInput)
    requires
        cfg.enabled,
        i.override_kbps == 0,
        !i.connected,
    ensures
        tick_spec(a, cfg, i).0.target_kbps == cfg.nominal_kbps,
        tick_spec(a, cfg, i).0.bad_streak == 0,
        tick_spec(a, cfg, i).0.good_streak == 0,
{
}

/// The adapter after a run of ticks.
pub open spec fn run(a: Adapter, cfg: AdapterConfig, ticks: Seq<AdaptInput>) -> Adapter
    decreases ticks.len(),
{
    if ticks.len() == 0 {
        a
    } else {
        tick_spec(run(a, cfg, ticks.drop_last()), cfg, ticks.last()).0
    }
}

/// The ticks of a run whose path was of class `path`.
pub open spec fn count_of(ticks: Seq<AdaptInput>, path: PathClass) -> nat
    decreases ticks.len(),
{
    if ticks.len() == 0 {
        0
    } else {
        count_of(ticks.drop_last(), path) + if ticks.last().path == path {
            1nat
        } else {
            0nat
        }
    }
}

proof fn lemma_streaks_are_earned(a: Adapter, cfg: AdapterConfig, ticks: Seq<AdaptInput>)
    ensures
        run(a, cfg, ticks).bad_streak <= a.bad_streak + count_of(ticks, PathClass::Bad),
        run(a, cfg, ticks).good_streak <= a.good_streak + count_of(ticks, PathClass::Good),
    decreases ticks.len(),
{
    if ticks.len() > 0 {
        lemma_streaks_are_earned(a, cfg, ticks.drop_last());
    }
}

/// Starting from no streaks, a step down takes at least five bad ticks and a
/// step up at least thirty clean ones.
pub proof fn law_steps_are_earned(a: Adapter, cfg: AdapterConfig, ticks: Seq<AdaptInput>)
    requires
        a.bad_streak == 0,
        a.good_streak == 0,
        ticks.len() > 0,
    ensures
        tick_spec(
            run(a, cfg, ticks.drop_last()),
            cfg,
            ticks.last(),
        ).1 matches AdaptAction::Step { from_kbps, to_kbps, kind } ==> {
            &&& kind == StepKind::Down ==> count_of(ticks, PathClass::Bad)
                >= BAD_TICKS_TO_STEP_DOWN
            &&& kind == StepKind::Up ==> count_of(ticks, PathClass::Good) >= GOOD_TICKS_TO_STEP_UP
        },
{
    lemma_streaks_are_earned(a, cfg, ticks.drop_last());
}

/// A streak that is long enough, once the cooldown is over, moves a target that
/// is not yet at its bound.
pub proof fn law_streaks_lead_to_steps(a: Adapter, cfg: AdapterConfig, i: AdaptInput)
    requires
        sound(cfg),
        in_bounds(a, cfg),
        cfg.enabled,
        i.override_kbps == 0,
        i.connected,
        i.now_us - a.last_change_us >= COOLDOWN_US,
    ensures
        i.path == PathClass::Bad && a.bad_streak >= BAD_TICKS_TO_STEP_DOWN - 1 && a.target_kbps
            > cfg.min_kbps ==> (tick_spec(a, cfg, i).1 matches AdaptAction::Step { kind, .. }
            && kind == StepKind::Down),
        i.path == PathClass::Good && a.good_streak >= GOOD_TICKS_TO_STEP_UP - 1 && a.target_kbps
            < cfg.max_kbps && a.target_kbps >= 4 ==> (tick_spec(a, cfg, i).1 matches AdaptAction::Step {
            kind,
            ..
        } && kind == StepKind::Up),
{
    law_target_stays_in_bounds(a, cfg, i);
    assert(STEP_UP_MULT == 125 && STEP_DOWN_MULT == 75 && PERCENT == 100);
}

/// A step up makes exactly five quarters of the target, or the ceiling where that lies
/// beyond it; a step down leaves exactly three quarters, or the floor where that lies
/// below it.
pub proof fn law_steps_go_a_quarter_and_no_further(a: Adapter, cfg: AdapterConfig, i: AdaptInput)
    requires
        fits(a, cfg, i),
    ensures
        tick_spec(a, cfg, i).1 matches AdaptAction::Step { from_kbps, to_kbps, kind } ==> {
            &&& from_kbps == a.target_kbps
            &&& to_kbps == tick_spec(a, cfg, i).0.target_kbps
            &&& to_kbps != from_kbps
            &&& kind == StepKind::Up ==> to_kbps == if from_kbps * 5 / 4 <= cfg.max_kbps {
                from_kbps * 5 / 4
            } else {
                cfg.max_kbps as int
            }
            &&& kind == StepKind::Down ==> to_kbps == if from_kbps * 3 / 4 >= cfg.min_kbps {
                from_kbps * 3 / 4
            } else {
                cfg.min_kbps as int
            }
        },
{
    assert(STEP_UP_MULT == 125 && STEP_DOWN_MULT == 75 && PERCENT == 100);
    let t = a.target_kbps as int;
    assert(t * 125 / 100 == t * 5 / 4);
    assert(t * 75 / 100 == t * 3 / 4);
}

/// The streaks count what the path has looked like: a bad tick lengthens the bad streak
/// and ends the good one, a clean tick the other way round, and a tick in between
/// shortens both by one, not below zero.
pub proof fn law_streaks_count_the_path(a: Adapter, cfg: AdapterConfig, i: AdaptInput)
    requires
        cfg.enabled,
        i.override_kbps == 0,
        i.connected,
        a.bad_streak < u32::MAX,
        a.good_streak < u32::MAX,
        !(tick_spec(a, cfg, i).1 is Step),
    ensures
        ({
            let after = tick_spec(a, cfg, i).0;
            &&& tick_spec(a, cfg, i).1 is Hold
            &&& after.target_kbps == a.target_kbps
            &&& after.last_change_us == a.last_change_us
            &&& i.path == PathClass::Bad ==> after.bad_streak == a.bad_streak + 1
                && after.good_streak == 0
            &&& i.path == PathClass::Good ==> after.good_streak == a.good_streak + 1
                && after.bad_streak == 0
            &&& i.path == PathClass::Middling ==> (a.bad_streak > 0 ==> after.bad_streak
                == a.bad_streak - 1) && (a.bad_streak == 0 ==> after.bad_streak == 0) && (
            a.good_streak > 0 ==> after.good_streak == a.good_streak - 1) && (a.good_streak == 0
                ==> after.good_streak == 0)
        }),
{
}

/// A step starts the streaks over.
pub proof fn law_a_step_starts_over(a: Adapter, cfg: AdapterConfig, i: AdaptInput)
    requires
        tick_spec(a, cfg, i).1 is Step,
    ensures
        tick_spec(a, cfg, i).0.bad_streak == 0,
        tick_spec(a, cfg, i).0.good_streak == 0,
        tick_spec(a, cfg, i).0.last_change_us == i.now_us,
{
}

/// A step comes exactly when it is due: with a publisher and no pin, ten seconds after
/// the last change, at the fifth bad tick in a row, counting this one, or the thirtieth
/// clean one, and where it moves the target. Bad ticks go before clean ones.
pub proof fn law_when_steps_come(a: Adapter, cfg: AdapterConfig, i: AdaptInput)
    requires
        cfg.enabled,
        fits(a, cfg, i),
    ensures
        ({
            let free = i.override_kbps == 0 && i.connected && i.now_us - a.last_change_us
                >= 10_000_000;
            let down = (i.path == PathClass::Bad && a.bad_streak >= 4) || (i.path
                == PathClass::Middling && a.bad_streak >= 6);
            let up = !down && ((i.path == PathClass::Good && a.good_streak >= 29) || (i.path
                == PathClass::Middling && a.good_streak >= 31));
            let lower = if a.target_kbps * 3 / 4 >= cfg.min_kbps {
                a.target_kbps * 3 / 4
            } else {
                cfg.min_kbps as int
            };
            let higher = if a.target_kbps * 5 / 4 <= cfg.max_kbps {
                a.target_kbps * 5 / 4
            } else {
                cfg.max_kbps as int
            };
            let action = tick_spec(a, cfg, i).1;
            &&& (action matches AdaptAction::Step { kind, .. } && kind == StepKind::Down) <==> free
                && down && lower != a.target_kbps
            &&& (action matches AdaptAction::Step { kind, .. } && kind == StepKind::Up) <==> free
                && up && higher != a.target_kbps
        }),
{
    assert(STEP_UP_MULT == 125 && STEP_DOWN_MULT == 75 && PERCENT == 100);
    let t = a.target_kbps as int;
    assert(t * 125 / 100 == t * 5 / 4);
    assert(t * 75 / 100 == t * 3 / 4);
}

/// A pin takes the target to itself where it lies within the bounds, else to the bound
/// that it lies beyond; the encoder is set only where that changes the target, and the
/// streaks start over.
pub proof fn law_pins_are_applied(a: Adapter, cfg: AdapterConfig, i: AdaptInput)
    requires
        cfg.enabled,
        i.override_kbps != 0,
        cfg.min_kbps <= cfg.max_kbps,
    ensures
        ({
            let (after, action) = tick_spec(a, cfg, i);
            &&& i.override_kbps < cfg.min_kbps ==> after.target_kbps == cfg.min_kbps
            &&& i.override_kbps > cfg.max_kbps ==> after.target_kbps == cfg.max_kbps
            &&& cfg.min_kbps <= i.override_kbps <= cfg.max_kbps ==> after.target_kbps
                == i.override_kbps
            &&& after.bad_streak == 0 && after.good_streak == 0
            &&& if after.target_kbps == a.target_kbps {
                action == AdaptAction::Hold && after.last_change_us == a.last_change_us
            } else {
                action == (AdaptAction::Apply { kbps: after.target_kbps }) && after.last_change_us
                    == i.now_us
            }
        }),
{
}

/// Without a publisher or a pin the nominal target is published at every tick, and the
/// time of the last change stays.
pub proof fn law_nominal_is_published(a: Adapter, cfg: AdapterConfig, i: AdaptInput)
    requires
        cfg.enabled,
        i.override_kbps == 0,
        !i.connected,
    ensures
        tick_spec(a, cfg, i).1 == (AdaptAction::Publish { kbps: cfg.nominal_kbps }),
        tick_spec(a, cfg, i).0.target_kbps == cfg.nominal_kbps,
        tick_spec(a, cfg, i).0.last_change_us == a.last_change_us,
{
}

/// The arithmetic of a tick fits wherever the bounds are in order and the target is one
/// that five quarters of it can be worked out for; an adapter that is not enabled has
/// none.
pub proof fn law_ordinary_ticks_fit(a: Adapter, cfg: AdapterConfig, i: AdaptInput)
    ensures
        !cfg.enabled ==> fits(a, cfg, i),
        cfg.min_kbps <= cfg.max_kbps && a.target_kbps <= 34_359_738 ==> fits(a, cfg, i),
        cfg.enabled && i.override_kbps != 0 && cfg.min_kbps > cfg.max_kbps ==> !fits(a, cfg, i),
{
}

/// A rate is moved into its bounds by as little as there is need.
pub proof fn law_clamping(v: u32, lo: u32, hi: u32)
    requires
        lo <= hi,
    ensures
        lo <= clamped(v, lo, hi) <= hi,
        lo <= v <= hi ==> clamped(v, lo, hi) == v,
        v < lo ==> clamped(v, lo, hi) == lo,
        v > hi ==> clamped(v, lo, hi) == hi,
{
}

} // verus!
