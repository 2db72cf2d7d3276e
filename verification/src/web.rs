//! The dashboard's side of the relay: what an operator command does, and the life
//! of one dashboard connection.

use vstd::prelude::*;

use crate::adapt;
use crate::events::CaptureEvent;
use crate::pipeline::PipelineCommand;
use crate::wsproto::ClientMsg;

verus! {

// ── operator commands ───────────────────────────────────────────────────────

/// Something that an operator command does.
#[derive(Debug, Clone, PartialEq, Eq)]
pub enum CommandEffect {
    /// Make the uplink's encoder emit a keyframe.
    ForceKeyframe,
    /// Make the preview's encoder emit a keyframe.
    ForcePreviewKeyframe,
    /// Pin the bitrate for the adapter; zero releases the pin.
    SetOverride(u32),
    /// Set the running encoder's bitrate.
    SetEncoderBitrate(u32),
    /// Publish the bitrate that is aimed for.
    PublishTarget(u32),
    /// Send a record to the session that is being captured.
    Record(CaptureEvent),
    /// Pass a command on to the pipeline task.
    Command(PipelineCommand),
}

/// The bitrate that is pinned when the operator asks for `kbps`: moved into the
/// adapter's bounds, or as it is where no bitrate lies between them.
pub open spec fn pinned(kbps: u32, min_kbps: u32, max_kbps: u32) -> u32 {
    if min_kbps <= max_kbps {
        adapt::clamped(kbps, min_kbps, max_kbps)
    } else {
        kbps
    }
}

/// What an operator command does, in order, where the adapter's bounds are
/// `min_kbps` and `max_kbps`.
pub open spec fn command_spec(cmd: ClientMsg, min_kbps: u32, max_kbps: u32) -> Seq<
    CommandEffect,
> {
    match cmd {
        ClientMsg::RequestKeyframe => seq![
            CommandEffect::ForceKeyframe,
            CommandEffect::ForcePreviewKeyframe,
            CommandEffect::Record(CaptureEvent::OperatorKeyframe),
        ],
        ClientMsg::SetBitrate { kbps } => {
            let pin = pinned(kbps, min_kbps, max_kbps);
            seq![
                CommandEffect::SetOverride(pin),
                CommandEffect::SetEncoderBitrate(pin),
                CommandEffect::PublishTarget(pin),
                CommandEffect::Record(CaptureEvent::BitratePinned { kbps: pin }),
            ]
        },
        ClientMsg::ClearBitrateOverride => seq![
            CommandEffect::SetOverride(0),
            CommandEffect::Record(CaptureEvent::BitrateUnpinned),
        ],
        ClientMsg::RestartPipeline => seq![CommandEffect::Command(PipelineCommand::Restart)],
    }
}

/// Says what an operator command does.
pub fn handle_client_command(cmd: ClientMsg, min_kbps: u32, max_kbps: u32) -> (out: Vec<
    CommandEffect,
>)
    ensures
        out@ == command_spec(cmd, min_kbps, max_kbps),
{
    let mut out: Vec<CommandEffect> = Vec::new();
    match cmd {
        ClientMsg::RequestKeyframe => {
            out.push(CommandEffect::ForceKeyframe);
            out.push(CommandEffect::ForcePreviewKeyframe);
            out.push(CommandEffect::Record(CaptureEvent::OperatorKeyframe));
        },
        ClientMsg::SetBitrate { kbps } => {
            let pin: u32 = if min_kbps <= max_kbps {
                adapt::clamp(kbps, min_kbps, max_kbps)
            } else {
                kbps
            };
            out.push(CommandEffect::SetOverride(pin));
            out.push(CommandEffect::SetEncoderBitrate(pin));
            out.push(CommandEffect::PublishTarget(pin));
            out.push(CommandEffect::Record(CaptureEvent::BitratePinned { kbps: pin }));
        },
        ClientMsg::ClearBitrateOverride => {
            out.push(CommandEffect::SetOverride(0));
            out.push(CommandEffect::Record(CaptureEvent::BitrateUnpinned));
        },
        ClientMsg::RestartPipeline => {
            out.push(CommandEffect::Command(PipelineCommand::Restart));
        },
    }
    assert(out@ =~= command_spec(cmd, min_kbps, max_kbps));
    out
}

// ── dashboard connections ───────────────────────────────────────────────────

/// How far a dashboard connection has come.
#[derive(Debug, Clone, Copy, PartialEq, Eq, Structural)]
pub enum Phase {
    /// Not yet counted.
    New,
    /// Waiting for the first decoder settings to be sent.
    GreetingInit,
    /// Waiting for the first statistics to be sent.
    GreetingStats,
    /// Forwarding what comes.
    Streaming,
    Left,
}

/// Something that happens to a dashboard connection.
#[derive(Debug, Clone, Copy, PartialEq, Eq, Structural)]
pub enum SocketEvent {
    /// The client has connected, with or without a stream to decode.
    Joined { has_init: bool },
    /// What was to be sent has been sent.
    Sent,
    /// What was to be sent could not be sent.
    SendFailed,
    /// The stream to decode has changed, or has ended.
    InitChanged { has_init: bool },
    StatsChanged,
    /// An access unit has come.
    Frame,
    /// So many access units were missed.
    Lagged(u64),
    /// A source of things to forward is gone.
    SourceClosed,
    /// A message that reads as an operator command.
    Command,
    /// A message that does not, or of another kind.
    OtherMessage,
    /// The client has closed the connection, or it failed.
    Closed,
}

/// Something to do for a dashboard connection.
#[derive(Debug, Clone, Copy, PartialEq, Eq, Structural)]
pub enum SocketAction {
    /// Count the client in.
    CountIn,
    /// Count the client out.
    CountOut,
    /// Send the current decoder settings, and report how that went.
    SendInit,
    /// Send the current statistics, and report how that went.
    SendStats,
    /// Send the access unit, and report how that went.
    SendFrame,
    ForcePreviewKeyframe,
    /// Count access units as dropped.
    CountDropped(u64),
    /// Carry out the operator command.
    RunCommand,
}

/// A dashboard connection in phase `p` after `e`, and what is to be done.
pub open spec fn socket_spec(p: Phase, e: SocketEvent) -> (Phase, Seq<SocketAction>) {
    match (p, e) {
        (Phase::New, SocketEvent::Joined { has_init: true }) => (
            Phase::GreetingInit,
            seq![SocketAction::CountIn, SocketAction::SendInit],
        ),
        (Phase::New, SocketEvent::Joined { has_init: false }) => (
            Phase::GreetingStats,
            seq![SocketAction::CountIn, SocketAction::SendStats],
        ),
        (Phase::New, _) | (Phase::Left, _) => (p, Seq::empty()),
        (_, SocketEvent::SendFailed) => (Phase::Left, seq![SocketAction::CountOut]),
        (Phase::GreetingInit, SocketEvent::Sent) => (
            Phase::GreetingStats,
            seq![SocketAction::ForcePreviewKeyframe, SocketAction::SendStats],
        ),
        (Phase::GreetingStats, SocketEvent::Sent) => (Phase::Streaming, Seq::empty()),
        (Phase::GreetingInit, _) | (Phase::GreetingStats, _) => (p, Seq::empty()),
        (Phase::Streaming, SocketEvent::InitChanged { has_init: true }) => (
            p,
            seq![SocketAction::SendInit],
        ),
        (Phase::Streaming, SocketEvent::StatsChanged) => (p, seq![SocketAction::SendStats]),
        (Phase::Streaming, SocketEvent::Frame) => (p, seq![SocketAction::SendFrame]),
        (Phase::Streaming, SocketEvent::Lagged(n)) => (
            p,
            seq![SocketAction::CountDropped(n), SocketAction::ForcePreviewKeyframe],
        ),
        (Phase::Streaming, SocketEvent::Command) => (p, seq![SocketAction::RunCommand]),
        (Phase::Streaming, SocketEvent::SourceClosed) | (
            Phase::Streaming,
            SocketEvent::Closed,
        ) => (Phase::Left, seq![SocketAction::CountOut]),
        (Phase::Streaming, _) => (p, Seq::empty()),
    }
}

/// A dashboard connection.
#[derive(Debug, Clone, Copy, PartialEq, Eq, Structural)]
pub struct Socket {
    pub phase: Phase,
}

impl Socket {
    /// A connection that has just been made.
    pub fn new() -> (s: Socket)
        ensures
            s.phase == Phase::New,
    {
        Socket { phase: Phase::New }
    }

    /// Whether the connection is over.
    pub fn has_left(&self) -> (left: bool)
        ensures
            left == (self.phase == Phase::Left),
    {
        self.phase == Phase::Left
    }

    /// Takes an event and says what is to be done.
    pub fn on_event(&mut self, e: SocketEvent) -> (out: Vec<SocketAction>)
        ensures
            (final(self).phase, out@) == socket_spec(old(self).phase, e),
    {
        let mut out: Vec<SocketAction> = Vec::new();
        match self.phase {
            Phase::New => {
                if let SocketEvent::Joined { has_init } = e {
                    out.push(SocketAction::CountIn);
                    if has_init {
                        self.phase = Phase::GreetingInit;
                        out.push(SocketAction::SendInit);
                    } else {
                        self.phase = Phase::GreetingStats;
                        out.push(SocketAction::SendStats);
                    }
                }
            },
            Phase::GreetingInit => match e {
                SocketEvent::SendFailed => {
                    self.leave(&mut out);
                },
                SocketEvent::Sent => {
                    self.phase = Phase::GreetingStats;
                    out.push(SocketAction::ForcePreviewKeyframe);
                    out.push(SocketAction::SendStats);
                },
                _ => {},
            },
            Phase::GreetingStats => match e {
                SocketEvent::SendFailed => {
                    self.leave(&mut out);
                },
                SocketEvent::Sent => {
                    self.phase = Phase::Streaming;
                },
                _ => {},
            },
            Phase::Streaming => match e {
                SocketEvent::SendFailed | SocketEvent::SourceClosed | SocketEvent::Closed => {
                    self.leave(&mut out);
                },
                SocketEvent::InitChanged { has_init } => {
                    if has_init {
                        out.push(SocketAction::SendInit);
                    }
                },
                SocketEvent::StatsChanged => {
                    out.push(SocketAction::SendStats);
                },
                SocketEvent::Frame => {
                    out.push(SocketAction::SendFrame);
                },
                SocketEvent::Lagged(n) => {
                    out.push(SocketAction::CountDropped(n));
                    out.push(SocketAction::ForcePreviewKeyframe);
                },
                SocketEvent::Command => {
                    out.push(SocketAction::RunCommand);
                },
                SocketEvent::Joined { .. } | SocketEvent::Sent | SocketEvent::OtherMessage => {},
            },
            Phase::Left => {},
        }
        assert(out@ =~= socket_spec(old(self).phase, e).1);
        out
    }

    fn leave(&mut self, out: &mut Vec<SocketAction>)
        ensures
            final(self).phase == Phase::Left,
            final(out)@ == old(out)@.push(SocketAction::CountOut),
    {
        self.phase = Phase::Left;
        out.push(SocketAction::CountOut);
    }
}

// ── laws ────────────────────────────────────────────────────────────────────

/// A pinned bitrate lies within the adapter's bounds, and an enabled adapter keeps to it:
/// its next tick leaves the target where the command put it, without a step.
pub proof fn law_pin_is_within_bounds(
    kbps: u32,
    cfg: adapt::AdapterConfig,
    a: adapt::Adapter,
    i: adapt::AdaptInput,
)
    requires
        cfg.min_kbps <= cfg.max_kbps,
    ensures
        ({
            let effects = command_spec(
                ClientMsg::SetBitrate { kbps },
                cfg.min_kbps,
                cfg.max_kbps,
            );
            let pin = adapt::clamped(kbps, cfg.min_kbps, cfg.max_kbps);
            &&& cfg.min_kbps <= pin <= cfg.max_kbps
            &&& effects[0] == CommandEffect::SetOverride(pin)
            &&& effects[1] == CommandEffect::SetEncoderBitrate(pin)
            &&& effects[2] == CommandEffect::PublishTarget(pin)
            &&& cfg.enabled && i.override_kbps == pin && pin != 0 ==> {
                &&& adapt::tick_spec(a, cfg, i).0.target_kbps == pin
                &&& !(adapt::tick_spec(a, cfg, i).1 is Step)
            }
        }),
{
}

/// The phase after a run of events.
pub open spec fn phase_after(p: Phase, events: Seq<SocketEvent>) -> Phase
    decreases events.len(),
{
    if events.len() == 0 {
        p
    } else {
        socket_spec(phase_after(p, events.drop_last()), events.last()).0
    }
}

/// All that is done over a run of events.
pub open spec fn actions_over(p: Phase, events: Seq<SocketEvent>) -> Seq<SocketAction>
    decreases events.len(),
{
    if events.len() == 0 {
        Seq::empty()
    } else {
        let before = events.drop_last();
        actions_over(p, before) + socket_spec(phase_after(p, before), events.last()).1
    }
}

/// Clients counted in less clients counted out.
pub open spec fn balance(actions: Seq<SocketAction>) -> int
    decreases actions.len(),
{
    if actions.len() == 0 {
        0
    } else {
        balance(actions.drop_last()) + match actions.last() {
            SocketAction::CountIn => 1int,
            SocketAction::CountOut => -1int,
            _ => 0int,
        }
    }
}

proof fn lemma_balance_adds(a: Seq<SocketAction>, b: Seq<SocketAction>)
    ensures
        balance(a + b) == balance(a) + balance(b),
    decreases b.len(),
{
    if b.len() == 0 {
        assert(a + b =~= a);
    } else {
        lemma_balance_adds(a, b.drop_last());
        assert((a + b).drop_last() =~= a + b.drop_last());
        assert((a + b).last() == b.last());
    }
}

proof fn lemma_step_balance(p: Phase, e: SocketEvent)
    ensures
        balance(socket_spec(p, e).1) == present(socket_spec(p, e).0) - present(p),
{
    let s = socket_spec(p, e).1;
    reveal_with_fuel(balance, 3);
    if s.len() == 1 {
        assert(s.drop_last() =~= Seq::empty());
    } else if s.len() == 2 {
        assert(s.drop_last() =~= seq![s[0]]);
        assert(s.drop_last().drop_last() =~= Seq::empty());
    }
}

/// One for a connection that is counted, zero for one that is not.
pub open spec fn present(p: Phase) -> int {
    if p == Phase::New || p == Phase::Left {
        0
    } else {
        1
    }
}

/// However a connection goes, it is counted in once when it begins and counted out
/// once when it ends.
pub proof fn law_clients_balance(events: Seq<SocketEvent>)
    ensures
        balance(actions_over(Phase::New, events)) == present(phase_after(Phase::New, events)),
    decreases events.len(),
{
    reveal_with_fuel(balance, 2);
    if events.len() > 0 {
        let before = events.drop_last();
        let p = phase_after(Phase::New, before);
        law_clients_balance(before);
        lemma_step_balance(p, events.last());
        lemma_balance_adds(actions_over(Phase::New, before), socket_spec(p, events.last()).1);
    }
}

/// What is done for a connection begins with counting it in and greeting it: with
/// the decoder settings where there is a stream, and then, once those are sent,
/// with a keyframe to start from and the statistics; with the statistics alone
/// where there is no stream.
pub open spec fn begins_with_greeting(actions: Seq<SocketAction>) -> bool {
    ||| actions.len() == 0
    ||| actions.len() >= 2 && actions[0] == SocketAction::CountIn && actions[1]
        == SocketAction::SendStats
    ||| actions.len() >= 2 && actions[0] == SocketAction::CountIn && actions[1]
        == SocketAction::SendInit && (actions.len() == 2 || actions == seq![
        SocketAction::CountIn,
        SocketAction::SendInit,
        SocketAction::CountOut,
    ] || (actions.len() >= 4 && actions[2] == SocketAction::ForcePreviewKeyframe && actions[3]
        == SocketAction::SendStats))
}

/// However a connection goes, it is greeted before anything else is done for it.
pub proof fn law_greeting_comes_first(events: Seq<SocketEvent>)
    ensures
        begins_with_greeting(actions_over(Phase::New, events)),
        phase_after(Phase::New, events) == Phase::New ==> actions_over(
            Phase::New,
            events,
        ).len() == 0,
        phase_after(Phase::New, events) == Phase::GreetingInit ==> actions_over(
            Phase::New,
            events,
        ) == seq![SocketAction::CountIn, SocketAction::SendInit],
        phase_after(Phase::New, events) == Phase::GreetingStats || phase_after(
            Phase::New,
            events,
        ) == Phase::Streaming ==> actions_over(Phase::New, events).len() >= 2 && (actions_over(
            Phase::New,
            events,
        )[1] == SocketAction::SendInit ==> actions_over(Phase::New, events).len() >= 4),
        phase_after(Phase::New, events) == Phase::Left ==> actions_over(
            Phase::New,
            events,
        ).len() >= 3,
    decreases events.len(),
{
    if events.len() > 0 {
        let before = events.drop_last();
        let p = phase_after(Phase::New, before);
        let done = actions_over(Phase::New, before);
        law_greeting_comes_first(before);
        let all = actions_over(Phase::New, events);
        assert(all == done + socket_spec(p, events.last()).1);
        if p == Phase::GreetingInit && events.last() == SocketEvent::SendFailed {
            assert(all =~= seq![
                SocketAction::CountIn,
                SocketAction::SendInit,
                SocketAction::CountOut,
            ]);
        } else if p == Phase::Left {
            assert(all =~= done);
        }
    }
}

/// Once a connection is over, nothing more is done for it.
pub proof fn law_nothing_follows_leaving(events: Seq<SocketEvent>)
    ensures
        phase_after(Phase::Left, events) == Phase::Left,
        actions_over(Phase::Left, events) == Seq::<SocketAction>::empty(),
    decreases events.len(),
{
    if events.len() > 0 {
        law_nothing_follows_leaving(events.drop_last());
    }
}

/// What an operator command does. A keyframe is asked of both encoders and recorded. A
/// bitrate is pinned, set at once, published and recorded, as the rate asked for where
/// it lies within the bounds and as the nearer bound where it does not. Releasing the pin
/// is recorded, and a restart is the pipeline's.
pub proof fn law_what_a_command_does(cmd: ClientMsg, min_kbps: u32, max_kbps: u32)
    requires
        min_kbps <= max_kbps,
    ensures
        ({
            let out = command_spec(cmd, min_kbps, max_kbps);
            match cmd {
                ClientMsg::RequestKeyframe => {
                    &&& out.len() == 3
                    &&& out[0] == CommandEffect::ForceKeyframe
                    &&& out[1] == CommandEffect::ForcePreviewKeyframe
                    &&& out[2] == CommandEffect::Record(CaptureEvent::OperatorKeyframe)
                },
                ClientMsg::SetBitrate { kbps } => {
                    &&& out.len() == 4
                    &&& out[0] matches CommandEffect::SetOverride(pin) && {
                        &&& min_kbps <= kbps <= max_kbps ==> pin == kbps
                        &&& kbps < min_kbps ==> pin == min_kbps
                        &&& kbps > max_kbps ==> pin == max_kbps
                        &&& out[1] == CommandEffect::SetEncoderBitrate(pin)
                        &&& out[2] == CommandEffect::PublishTarget(pin)
                        &&& out[3] == CommandEffect::Record(
                            CaptureEvent::BitratePinned { kbps: pin },
                        )
                    }
                },
                ClientMsg::ClearBitrateOverride => {
                    &&& out.len() == 2
                    &&& out[0] == CommandEffect::SetOverride(0)
                    &&& out[1] == CommandEffect::Record(CaptureEvent::BitrateUnpinned)
                },
                ClientMsg::RestartPipeline => {
                    &&& out.len() == 1
                    &&& out[0] == CommandEffect::Command(PipelineCommand::Restart)
                },
            }
        }),
{
}

/// Bounds with nothing between them hold no pin back.
pub proof fn law_empty_bounds_pin_as_asked(kbps: u32, min_kbps: u32, max_kbps: u32)
    requires
        min_kbps > max_kbps,
    ensures
        pinned(kbps, min_kbps, max_kbps) == kbps,
{
}

/// A client that has been greeted gets everything that comes: each access unit, each new
/// statistics, each new stream to decode. What it missed is counted in full and followed
/// by a keyframe, and its commands are carried out. It leaves where it or a source
/// closes or cannot be sent to, and for no other reason.
pub proof fn law_streaming_forwards_everything(e: SocketEvent)
    ensures
        ({
            let (next, out) = socket_spec(Phase::Streaming, e);
            let leaves = e == SocketEvent::SendFailed || e == SocketEvent::SourceClosed || e
                == SocketEvent::Closed;
            &&& leaves ==> next == Phase::Left && out == seq![SocketAction::CountOut]
            &&& !leaves ==> next == Phase::Streaming
            &&& e == SocketEvent::Frame ==> out == seq![SocketAction::SendFrame]
            &&& e == SocketEvent::StatsChanged ==> out == seq![SocketAction::SendStats]
            &&& e matches SocketEvent::InitChanged { has_init } ==> out == if has_init {
                seq![SocketAction::SendInit]
            } else {
                Seq::empty()
            }
            &&& e matches SocketEvent::Lagged(n) ==> out == seq![
                SocketAction::CountDropped(n),
                SocketAction::ForcePreviewKeyframe,
            ]
            &&& e == SocketEvent::Command ==> out == seq![SocketAction::RunCommand]
            &&& e is Joined || e == SocketEvent::Sent || e == SocketEvent::OtherMessage
                ==> out.len() == 0
        }),
{
}

/// A client is greeted with the decoder settings where there is a stream, then a
/// keyframe and the statistics; each step waits for the one before, and nothing but a
/// failure to send ends it.
pub proof fn law_greeting_goes_step_by_step(e: SocketEvent)
    ensures
        ({
            let (next, out) = socket_spec(Phase::New, e);
            match e {
                SocketEvent::Joined { has_init } => if has_init {
                    next == Phase::GreetingInit && out == seq![
                        SocketAction::CountIn,
                        SocketAction::SendInit,
                    ]
                } else {
                    next == Phase::GreetingStats && out == seq![
                        SocketAction::CountIn,
                        SocketAction::SendStats,
                    ]
                },
                _ => next == Phase::New && out.len() == 0,
            }
        }),
        ({
            let (next, out) = socket_spec(Phase::GreetingInit, e);
            match e {
                SocketEvent::Sent => next == Phase::GreetingStats && out == seq![
                    SocketAction::ForcePreviewKeyframe,
                    SocketAction::SendStats,
                ],
                SocketEvent::SendFailed => next == Phase::Left && out == seq![
                    SocketAction::CountOut,
                ],
                _ => next == Phase::GreetingInit && out.len() == 0,
            }
        }),
        ({
            let (next, out) = socket_spec(Phase::GreetingStats, e);
            match e {
                SocketEvent::Sent => next == Phase::Streaming && out.len() == 0,
                SocketEvent::SendFailed => next == Phase::Left && out == seq![
                    SocketAction::CountOut,
                ],
                _ => next == Phase::GreetingStats && out.len() == 0,
            }
        }),
        socket_spec(Phase::Left, e).0 == Phase::Left,
        socket_spec(Phase::Left, e).1.len() == 0,
{
}

} // verus!
