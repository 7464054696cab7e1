//! The engine as a state machine over mathematical values: its state, the
//! state that follows on each outcome, and what holds in every state.

use crate::config::LimiterMode;
use crate::config::LimiterState;
use crate::duty::run_millis;
use crate::duty::stop_millis;
use crate::global::candidate;
use crate::global::over_limit;
use crate::global::under_threshold;
use crate::global::ProcessSample;
use crate::protocol::Action;
use crate::protocol::Activity;
use crate::protocol::Outcome;
use crate::protocol::Phase;
use crate::protocol::SignalKind;
use vstd::prelude::*;

verus! {

/// The state of the engine.
#[verifier::ext_equal]
pub struct EngineView {
    /// Length of one round, in milliseconds.
    pub period_ms: u64,
    /// Percentage points between the limit and the resume threshold.
    pub hysteresis: u32,
    /// The process that runs the engine.
    pub own_pid: i32,
    pub phase: Phase,
    /// The mode in which the last round began; none while the limiter is
    /// switched off.
    pub mode: Option<LimiterMode>,
    /// The limit read at the start of the round.
    pub limit: u32,
    /// The process that targeted mode has last aimed at.
    pub held_target: Option<i32>,
    /// Whether that process stands still by a stop signal of the engine.
    pub target_stopped: bool,
    /// The target that did not take its last signal and counts as gone. It
    /// is not taken up again for as long as the desired state names it.
    pub lost_target: Option<i32>,
    /// The processes that global mode holds suspended, the oldest in front.
    pub paused: Seq<i32>,
    /// Stop signals issued so far; the count stays at the highest `u64`.
    pub pause_count: u64,
    /// When the last signal was issued.
    pub last_action_time: Option<u64>,
}

/// No process or one, as a sequence.
pub open spec fn held_seq(held: Option<i32>) -> Seq<i32> {
    match held {
        Some(pid) => seq![pid],
        None => Seq::empty(),
    }
}

/// The processes that stand still by a stop signal of the engine.
pub open spec fn suspended(m: EngineView) -> Seq<i32> {
    if m.target_stopped {
        held_seq(m.held_target) + m.paused
    } else {
        m.paused
    }
}

/// Every process that the engine has on its books, suspended or not.
pub open spec fn held_pids(m: EngineView) -> Seq<i32> {
    held_seq(m.held_target) + m.paused
}

/// What holds in every state that the engine reaches.
pub open spec fn inv(m: EngineView) -> bool {
    &&& m.paused.no_duplicates()
    &&& !m.paused.contains(m.own_pid)
    &&& m.target_stopped ==> m.held_target is Some
    &&& m.held_target is Some ==> m.lost_target is None
    &&& match m.mode {
        None => m.held_target is None && m.paused.len() == 0,
        Some(LimiterMode::Targeted) => m.paused.len() == 0,
        Some(LimiterMode::Global) => m.held_target is None,
    }
    &&& match m.phase {
        Phase::AwaitContinue => m.held_target is Some,
        Phase::Running | Phase::AwaitStop => m.held_target is Some && !m.target_stopped,
        Phase::Stopped => m.held_target is Some && m.target_stopped,
        Phase::AwaitLoad | Phase::AwaitProcesses => m.mode == Some(LimiterMode::Global),
        Phase::AwaitSuspend { pid } => {
            &&& m.mode == Some(LimiterMode::Global)
            &&& pid != m.own_pid
            &&& !m.paused.contains(pid)
        },
        Phase::Exited => m.mode is None,
        Phase::Ready | Phase::Resting => true,
    }
}

/// What the engine is doing in the state `m`.
pub open spec fn activity(m: EngineView) -> Activity {
    match m.mode {
        None => Activity::Idle,
        Some(LimiterMode::Targeted) => if m.held_target is None {
            Activity::Idle
        } else if m.target_stopped {
            Activity::TargetedStopped
        } else {
            Activity::TargetedRunning
        },
        Some(LimiterMode::Global) => if m.paused.len() > 0 {
            Activity::GlobalThrottling
        } else {
            Activity::GlobalMonitoring
        },
    }
}

/// The state in which an engine starts.
pub open spec fn initial(own_pid: i32, period_ms: u64, hysteresis: u32) -> EngineView {
    EngineView {
        period_ms,
        hysteresis,
        own_pid,
        phase: Phase::Ready,
        mode: None,
        limit: crate::config::MAX_LIMIT,
        held_target: None,
        target_stopped: false,
        lost_target: None,
        paused: Seq::empty(),
        pause_count: 0,
        last_action_time: None,
    }
}

/// The action that is pending in `phase`, for a target, a period and a
/// limit.
pub open spec fn pending_action(
    phase: Phase,
    held_target: Option<i32>,
    period_ms: u64,
    limit: u32,
) -> Action {
    match phase {
        Phase::Ready => Action::ReadConfig,
        Phase::AwaitContinue => Action::Signal {
            pid: held_target.unwrap(),
            kind: SignalKind::Continue,
        },
        Phase::Running => Action::Sleep { millis: run_millis(period_ms, limit) },
        Phase::AwaitStop => Action::Signal { pid: held_target.unwrap(), kind: SignalKind::Stop },
        Phase::Stopped => Action::Sleep { millis: stop_millis(period_ms, limit) },
        Phase::Resting => Action::Sleep { millis: period_ms },
        Phase::AwaitLoad => Action::SampleLoad,
        Phase::AwaitProcesses => Action::ListProcesses,
        Phase::AwaitSuspend { pid } => Action::Signal { pid, kind: SignalKind::Stop },
        Phase::Exited => Action::Exit,
    }
}

/// The action whose outcome the engine waits for.
pub open spec fn pending(m: EngineView) -> Action {
    pending_action(m.phase, m.held_target, m.period_ms, m.limit)
}

/// Whether `outcome` reports on the action that is pending in `phase`.
pub open spec fn answers(phase: Phase, outcome: Outcome) -> bool {
    match phase {
        Phase::Ready => outcome is Config,
        Phase::AwaitContinue | Phase::AwaitStop | Phase::AwaitSuspend { .. } => outcome is Signaled,
        Phase::Running | Phase::Stopped | Phase::Resting => outcome is Woke,
        Phase::AwaitLoad => outcome is Load,
        Phase::AwaitProcesses => outcome is Processes,
        Phase::Exited => false,
    }
}

/// The phase that follows a run phase, and a continue signal that was taken
/// where the run phase is empty.
pub open spec fn after_run(m: EngineView) -> Phase {
    if stop_millis(m.period_ms, m.limit) > 0 {
        Phase::AwaitStop
    } else {
        Phase::Ready
    }
}

/// What the engine remembers of a lost target once it has read the
/// desired state: the lost target where the desired state still names it,
/// and nothing where it names another process or none.
pub open spec fn remembered(m: EngineView, config: LimiterState) -> Option<i32> {
    if config.target_pid == m.lost_target {
        m.lost_target
    } else {
        None
    }
}

/// Whether a round in targeted mode takes the target of `config` up: there
/// is one, and it is not the target that was lost.
pub open spec fn takes_up(m: EngineView, config: LimiterState) -> bool {
    config.target_pid is Some && config.target_pid != m.lost_target
}

/// The state with nothing on the books any more.
pub open spec fn let_go(m: EngineView, config: LimiterState, phase: Phase) -> EngineView {
    EngineView {
        phase,
        mode: None,
        held_target: None,
        target_stopped: false,
        lost_target: remembered(m, config),
        paused: Seq::empty(),
        ..m
    }
}

/// The state after the desired state has been read: a round begins.
pub open spec fn begun(m: EngineView, config: LimiterState, stop: bool) -> EngineView {
    if stop {
        let_go(m, config, Phase::Exited)
    } else if !config.is_active {
        let_go(m, config, Phase::Resting)
    } else {
        match config.mode {
            LimiterMode::Targeted => EngineView {
                phase: if takes_up(m, config) {
                    Phase::AwaitContinue
                } else {
                    Phase::Resting
                },
                mode: Some(LimiterMode::Targeted),
                limit: config.limit_percentage,
                held_target: if takes_up(m, config) {
                    config.target_pid
                } else {
                    None
                },
                target_stopped: m.target_stopped && m.held_target == config.target_pid,
                lost_target: remembered(m, config),
                paused: Seq::empty(),
                ..m
            },
            LimiterMode::Global => EngineView {
                phase: Phase::AwaitLoad,
                mode: Some(LimiterMode::Global),
                limit: config.limit_percentage,
                held_target: None,
                target_stopped: false,
                lost_target: remembered(m, config),
                ..m
            },
        }
    }
}

/// The state after the target has not taken a signal: the target is off
/// the books and remembered as lost, and the next round begins at once.
pub open spec fn lost(m: EngineView) -> EngineView {
    EngineView {
        phase: Phase::Ready,
        held_target: None,
        target_stopped: false,
        lost_target: m.held_target,
        ..m
    }
}

/// The state after a signal has been sent.
pub open spec fn signaled(m: EngineView, delivered: bool) -> EngineView {
    match m.phase {
        Phase::AwaitContinue => if delivered {
            EngineView {
                phase: if run_millis(m.period_ms, m.limit) > 0 {
                    Phase::Running
                } else {
                    after_run(m)
                },
                target_stopped: false,
                ..m
            }
        } else {
            lost(m)
        },
        Phase::AwaitStop => if delivered {
            EngineView { phase: Phase::Stopped, target_stopped: true, ..m }
        } else {
            lost(m)
        },
        Phase::AwaitSuspend { pid } => EngineView {
            phase: Phase::Resting,
            paused: if delivered {
                m.paused.push(pid)
            } else {
                m.paused
            },
            ..m
        },
        _ => m,
    }
}

/// The state after a sleep.
pub open spec fn woken(m: EngineView) -> EngineView {
    match m.phase {
        Phase::Running => EngineView { phase: after_run(m), ..m },
        Phase::Stopped | Phase::Resting => EngineView { phase: Phase::Ready, ..m },
        _ => m,
    }
}

/// Whether the load `usage` makes the engine resume a process.
pub open spec fn resumes(m: EngineView, usage: u32) -> bool {
    &&& !over_limit(usage, m.limit)
    &&& under_threshold(usage, m.limit, m.hysteresis)
    &&& m.paused.len() > 0
}

/// The state after the system load has been sampled.
pub open spec fn sampled(m: EngineView, usage: u32) -> EngineView {
    if over_limit(usage, m.limit) {
        EngineView { phase: Phase::AwaitProcesses, ..m }
    } else if resumes(m, usage) {
        EngineView { phase: Phase::Resting, paused: m.paused.drop_first(), ..m }
    } else {
        EngineView { phase: Phase::Resting, ..m }
    }
}

/// The state after the processes have been sampled.
pub open spec fn listed(m: EngineView, samples: Seq<ProcessSample>) -> EngineView {
    match candidate(samples, m.own_pid, m.paused) {
        Some(pid) => EngineView { phase: Phase::AwaitSuspend { pid }, ..m },
        None => EngineView { phase: Phase::Resting, ..m },
    }
}

/// The processes that get a continue signal on `outcome`, before the next
/// action, without a report of how it went.
pub open spec fn releases(m: EngineView, outcome: Outcome) -> Seq<i32> {
    if !answers(m.phase, outcome) {
        Seq::empty()
    } else {
        match outcome {
            Outcome::Config { config, stop } => {
                if stop || !config.is_active {
                    held_seq(m.held_target) + m.paused
                } else {
                    match config.mode {
                        LimiterMode::Targeted => m.paused + (if m.held_target
                            != config.target_pid {
                            held_seq(m.held_target)
                        } else {
                            Seq::empty()
                        }),
                        LimiterMode::Global => held_seq(m.held_target),
                    }
                }
            },
            Outcome::Load { usage } => if resumes(m, usage) {
                seq![m.paused[0]]
            } else {
                Seq::empty()
            },
            _ => Seq::empty(),
        }
    }
}

/// One more stop signal, counted.
pub open spec fn counted(count: u64) -> u64 {
    if count < u64::MAX {
        (count + 1) as u64
    } else {
        count
    }
}

/// The state `moved` with the signals that lead to it put on record.
pub open spec fn recorded(m: EngineView, moved: EngineView, released: Seq<i32>, now: u64)
    -> EngineView {
    EngineView {
        pause_count: if pending(moved) matches Action::Signal { kind: SignalKind::Stop, .. } {
            counted(m.pause_count)
        } else {
            m.pause_count
        },
        last_action_time: if released.len() > 0 || pending(moved) is Signal {
            Some(now)
        } else {
            m.last_action_time
        },
        ..moved
    }
}

/// The state that follows `m` on `outcome`, reported at the time `now`. An
/// outcome that does not answer the pending action changes nothing.
pub open spec fn next(m: EngineView, outcome: Outcome, now: u64) -> EngineView {
    if !answers(m.phase, outcome) {
        m
    } else {
        let moved = match outcome {
            Outcome::Config { config, stop } => begun(m, config, stop),
            Outcome::Signaled { delivered } => signaled(m, delivered),
            Outcome::Woke => woken(m),
            Outcome::Load { usage } => sampled(m, usage),
            Outcome::Processes { samples } => listed(m, samples@),
        };
        recorded(m, moved, releases(m, outcome), now)
    }
}

} // verus!
