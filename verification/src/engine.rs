//! The engine: the working set of the limiter and its decisions.
//!
//! The engine never sleeps, signals or samples. It names the action to
//! perform, and `step` takes the outcome and moves on.

use crate::config::LimiterMode;
use crate::duty::duty_cycle;
use crate::duty::DEFAULT_PERIOD_MS;
use crate::global::is_over_limit;
use crate::global::is_under_threshold;
use crate::global::lemma_candidate;
use crate::global::select_candidate;
use crate::global::DEFAULT_HYSTERESIS;
use crate::model::activity;
use crate::model::held_seq;
use crate::model::initial;
use crate::model::inv;
use crate::model::next;
use crate::model::pending;
use crate::model::pending_action;
use crate::model::releases;
use crate::model::suspended;
use crate::model::EngineView;
use crate::paused::PausedQueue;
use crate::protocol::Action;
use crate::protocol::Activity;
use crate::protocol::Outcome;
use crate::protocol::Phase;
use crate::protocol::Plan;
use crate::protocol::SignalKind;
use crate::status::LimiterStatus;
use vstd::prelude::*;

verus! {

/// The working set of the limiter. It belongs to the one task that drives it.
pub struct Engine {
    period_ms: u64,
    hysteresis: u32,
    own_pid: i32,
    phase: Phase,
    mode: Option<LimiterMode>,
    limit: u32,
    held_target: Option<i32>,
    target_stopped: bool,
    lost_target: Option<i32>,
    paused: PausedQueue,
    pause_count: u64,
    last_action_time: Option<u64>,
}

impl View for Engine {
    type V = EngineView;

    closed spec fn view(&self) -> EngineView {
        EngineView {
            period_ms: self.period_ms,
            hysteresis: self.hysteresis,
            own_pid: self.own_pid,
            phase: self.phase,
            mode: self.mode,
            limit: self.limit,
            held_target: self.held_target,
            target_stopped: self.target_stopped,
            lost_target: self.lost_target,
            paused: self.paused@,
            pause_count: self.pause_count,
            last_action_time: self.last_action_time,
        }
    }
}

/// Whether two targets are the same.
fn same_target(a: Option<i32>, b: Option<i32>) -> (same: bool)
    ensures
        same == (a == b),
{
    match (a, b) {
        (Some(x), Some(y)) => x == y,
        (None, None) => true,
        _ => false,
    }
}

/// The action that is pending in a phase.
fn pending_in(phase: Phase, held_target: Option<i32>, period_ms: u64, limit: u32) -> (action:
    Action)
    requires
        phase is AwaitContinue || phase is AwaitStop ==> held_target is Some,
    ensures
        action == pending_action(phase, held_target, period_ms, limit),
{
    match phase {
        Phase::Ready => Action::ReadConfig,
        Phase::AwaitContinue => Action::Signal {
            pid: held_target.unwrap(),
            kind: SignalKind::Continue,
        },
        Phase::Running => Action::Sleep { millis: duty_cycle(period_ms, limit).0 },
        Phase::AwaitStop => Action::Signal { pid: held_target.unwrap(), kind: SignalKind::Stop },
        Phase::Stopped => Action::Sleep { millis: duty_cycle(period_ms, limit).1 },
        Phase::Resting => Action::Sleep { millis: period_ms },
        Phase::AwaitLoad => Action::SampleLoad,
        Phase::AwaitProcesses => Action::ListProcesses,
        Phase::AwaitSuspend { pid } => Action::Signal { pid, kind: SignalKind::Stop },
        Phase::Exited => Action::Exit,
    }
}

impl Engine {
    #[verifier::type_invariant]
    spec fn well_formed(self) -> bool {
        inv(self@)
    }

    /// An engine with a period of 100 ms and a hysteresis of 5 points, run
    /// by the process `own_pid`.
    pub fn new(own_pid: i32) -> (engine: Engine)
        ensures
            engine@ == initial(own_pid, DEFAULT_PERIOD_MS, DEFAULT_HYSTERESIS),
            inv(engine@),
    {
        Engine::with_timing(own_pid, DEFAULT_PERIOD_MS, DEFAULT_HYSTERESIS)
    }

    /// An engine with a period and a hysteresis of the caller's choice.
    pub fn with_timing(own_pid: i32, period_ms: u64, hysteresis: u32) -> (engine: Engine)
        ensures
            engine@ == initial(own_pid, period_ms, hysteresis),
            inv(engine@),
    {
        Engine {
            period_ms,
            hysteresis,
            own_pid,
            phase: Phase::Ready,
            mode: None,
            limit: crate::config::MAX_LIMIT,
            held_target: None,
            target_stopped: false,
            lost_target: None,
            paused: PausedQueue::new(),
            pause_count: 0,
            last_action_time: None,
        }
    }

    /// The action whose outcome the engine waits for.
    pub fn pending(&self) -> (action: Action)
        ensures
            action == pending(self@),
            inv(self@),
    {
        proof {
            use_type_invariant(self);
        }
        pending_in(self.phase, self.held_target, self.period_ms, self.limit)
    }

    /// Where the engine stands.
    pub fn phase(&self) -> (phase: Phase)
        ensures
            phase == self@.phase,
    {
        self.phase
    }

    /// The target that did not take its last signal, for as long as the
    /// desired state has named it since.
    pub fn lost_target(&self) -> (lost: Option<i32>)
        ensures
            lost == self@.lost_target,
    {
        self.lost_target
    }

    /// What the engine is doing.
    pub fn activity(&self) -> (doing: Activity)
        ensures
            doing == activity(self@),
    {
        match self.mode {
            None => Activity::Idle,
            Some(LimiterMode::Targeted) => {
                if self.held_target.is_none() {
                    Activity::Idle
                } else if self.target_stopped {
                    Activity::TargetedStopped
                } else {
                    Activity::TargetedRunning
                }
            },
            Some(LimiterMode::Global) => {
                if self.paused.is_empty() {
                    Activity::GlobalMonitoring
                } else {
                    Activity::GlobalThrottling
                }
            },
        }
    }

    /// Whether the engine has ended.
    pub fn is_finished(&self) -> (finished: bool)
        ensures
            finished == (self@.phase is Exited),
            finished ==> suspended(self@).len() == 0 && self@.held_target is None,
    {
        proof {
            use_type_invariant(self);
        }
        match self.phase {
            Phase::Exited => true,
            _ => false,
        }
    }

    /// What the engine holds suspended and what it has done so far.
    pub fn status(&self) -> (status: LimiterStatus)
        ensures
            status.target_pid == self@.held_target,
            status.currently_paused_pids@ == suspended(self@),
            status.is_actively_limiting == (suspended(self@).len() > 0),
            status.pause_count == self@.pause_count,
            status.last_action_time == self@.last_action_time,
            status.consistent(),
            status.currently_paused_pids@.no_duplicates(),
            self@.held_target is Some ==> status.currently_paused_pids@.len() <= 1,
    {
        proof {
            use_type_invariant(self);
        }
        let mut pids: Vec<i32> = self.paused.to_vec();
        if self.target_stopped {
            if let Some(pid) = self.held_target {
                pids.push(pid);
            }
        }
        let limiting = pids.len() > 0;
        LimiterStatus {
            target_pid: self.held_target,
            is_actively_limiting: limiting,
            currently_paused_pids: pids,
            pause_count: self.pause_count,
            last_action_time: self.last_action_time,
        }
    }

    /// Takes the outcome of the pending action, reported at the time `now`,
    /// and answers with what to do next. An outcome that does not answer
    /// the pending action changes nothing and is answered with that action
    /// again.
    pub fn step(&mut self, outcome: Outcome, now: u64) -> (plan: Plan)
        ensures
            final(self)@ == next(old(self)@, outcome, now),
            plan.releases@ == releases(old(self)@, outcome),
            plan.action == pending(final(self)@),
            inv(old(self)@),
            inv(final(self)@),
    {
        let mut current = Engine::with_timing(0, 0, 0);
        std::mem::swap(self, &mut current);
        let (moved, plan) = current.advance(outcome, now);
        *self = moved;
        plan
    }

    /// The engine after `outcome`, and what its driver is to do.
    fn advance(self, outcome: Outcome, now: u64) -> (res: (Engine, Plan))
        ensures
            res.0@ == next(self@, outcome, now),
            res.1.releases@ == releases(self@, outcome),
            res.1.action == pending(res.0@),
            inv(self@),
            inv(res.0@),
    {
        proof {
            use_type_invariant(&self);
        }
        let Engine {
            period_ms,
            hysteresis,
            own_pid,
            mut phase,
            mut mode,
            mut limit,
            mut held_target,
            mut target_stopped,
            mut lost_target,
            mut paused,
            mut pause_count,
            mut last_action_time,
        } = self;
        let mut released: Vec<i32> = Vec::new();
        let mut answered = false;
        match outcome {
            Outcome::Config { config, stop } => {
                if let Phase::Ready = phase {
                    answered = true;
                    let still_lost = same_target(config.target_pid, lost_target);
                    if !still_lost {
                        lost_target = None;
                    }
                    if stop || !config.is_active {
                        if let Some(pid) = held_target {
                            released.push(pid);
                        }
                        let mut queued = paused.drain();
                        released.append(&mut queued);
                        held_target = None;
                        target_stopped = false;
                        mode = None;
                        phase = if stop {
                            Phase::Exited
                        } else {
                            Phase::Resting
                        };
                    } else {
                        match config.mode {
                            LimiterMode::Targeted => {
                                let mut queued = paused.drain();
                                released.append(&mut queued);
                                if !same_target(held_target, config.target_pid) {
                                    if let Some(pid) = held_target {
                                        released.push(pid);
                                    }
                                    target_stopped = false;
                                }
                                held_target = if still_lost {
                                    None
                                } else {
                                    config.target_pid
                                };
                                mode = Some(LimiterMode::Targeted);
                                limit = config.limit_percentage;
                                phase = match held_target {
                                    Some(_) => Phase::AwaitContinue,
                                    None => Phase::Resting,
                                };
                            },
                            LimiterMode::Global => {
                                if let Some(pid) = held_target {
                                    released.push(pid);
                                }
                                held_target = None;
                                target_stopped = false;
                                mode = Some(LimiterMode::Global);
                                limit = config.limit_percentage;
                                phase = Phase::AwaitLoad;
                            },
                        }
                    }
                }
            },
            Outcome::Signaled { delivered } => {
                match phase {
                    Phase::AwaitContinue => {
                        answered = true;
                        target_stopped = false;
                        if delivered {
                            let split = duty_cycle(period_ms, limit);
                            phase = if split.0 > 0 {
                                Phase::Running
                            } else if split.1 > 0 {
                                Phase::AwaitStop
                            } else {
                                Phase::Ready
                            };
                        } else {
                            lost_target = held_target;
                            held_target = None;
                            phase = Phase::Ready;
                        }
                    },
                    Phase::AwaitStop => {
                        answered = true;
                        if delivered {
                            target_stopped = true;
                            phase = Phase::Stopped;
                        } else {
                            lost_target = held_target;
                            held_target = None;
                            target_stopped = false;
                            phase = Phase::Ready;
                        }
                    },
                    Phase::AwaitSuspend { pid } => {
                        answered = true;
                        if delivered {
                            paused.push_back(pid);
                        }
                        phase = Phase::Resting;
                    },
                    _ => {},
                }
            },
            Outcome::Woke => {
                match phase {
                    Phase::Running => {
                        answered = true;
                        let split = duty_cycle(period_ms, limit);
                        phase = if split.1 > 0 {
                            Phase::AwaitStop
                        } else {
                            Phase::Ready
                        };
                    },
                    Phase::Stopped | Phase::Resting => {
                        answered = true;
                        phase = Phase::Ready;
                    },
                    _ => {},
                }
            },
            Outcome::Load { usage } => {
                if let Phase::AwaitLoad = phase {
                    answered = true;
                    if is_over_limit(usage, limit) {
                        phase = Phase::AwaitProcesses;
                    } else {
                        if is_under_threshold(usage, limit, hysteresis) {
                            if let Some(pid) = paused.pop_front() {
                                released.push(pid);
                            }
                        }
                        phase = Phase::Resting;
                    }
                }
            },
            Outcome::Processes { samples } => {
                if let Phase::AwaitProcesses = phase {
                    answered = true;
                    proof {
                        lemma_candidate(samples@, own_pid, paused@);
                    }
                    phase = match select_candidate(&samples, own_pid, &paused) {
                        Some(pid) => Phase::AwaitSuspend { pid },
                        None => Phase::Resting,
                    };
                }
            },
        }
        let action = pending_in(phase, held_target, period_ms, limit);
        if answered {
            match action {
                Action::Signal { pid: _, kind } => {
                    last_action_time = Some(now);
                    if let SignalKind::Stop = kind {
                        pause_count = pause_count.saturating_add(1);
                    }
                },
                _ => {
                    if released.len() > 0 {
                        last_action_time = Some(now);
                    }
                },
            }
        }
        let engine = Engine {
            period_ms,
            hysteresis,
            own_pid,
            phase,
            mode,
            limit,
            held_target,
            target_stopped,
            lost_target,
            paused,
            pause_count,
            last_action_time,
        };
        (engine, Plan { releases: released, action })
    }
}

} // verus!
