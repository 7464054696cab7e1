//! What the engine and its driver say to each other.
//!
//! The engine decides and the driver acts: the engine names one action, the
//! driver performs it and reports its outcome, and the engine names the next.

use crate::config::LimiterState;
use crate::global::ProcessSample;
use vstd::prelude::*;

verus! {

/// The two signals that the engine has sent to a process.
#[derive(Clone, Copy, Debug, PartialEq, Eq, Structural)]
pub enum SignalKind {
    /// Suspends the process without ending it.
    Stop,
    /// Resumes a suspended process.
    Continue,
}

/// What the driver is to do next.
#[derive(Clone, Copy, Debug, PartialEq, Eq, Structural)]
pub enum Action {
    /// Read the desired state and the stop request, and report them.
    ReadConfig,
    /// Send the signal, and report whether the process took it.
    Signal { pid: i32, kind: SignalKind },
    /// Sleep, and report the awakening.
    Sleep { millis: u64 },
    /// Sample the load of the whole system, and report it.
    SampleLoad,
    /// Sample the usage of every process, and report the samples.
    ListProcesses,
    /// Nothing more: the engine has ended.
    Exit,
}

/// What the driver reports of the action that it has performed.
#[derive(Clone, Debug, PartialEq, Eq)]
pub enum Outcome {
    /// The desired state as read, and whether the engine is asked to end.
    Config { config: LimiterState, stop: bool },
    /// A signal was sent; `delivered` is false where the process is gone.
    Signaled { delivered: bool },
    /// The sleep is over.
    Woke,
    /// The load of the whole system in percent, as its bit pattern.
    Load { usage: u32 },
    /// The usage of every process.
    Processes { samples: Vec<ProcessSample> },
}

/// Where the engine stands within one round of its work, named after what
/// it waits for.
#[derive(Clone, Copy, Debug, PartialEq, Eq, Structural)]
pub enum Phase {
    /// For the desired state: a round begins.
    Ready,
    /// For the outcome of the continue signal that opens a targeted round.
    AwaitContinue,
    /// For the end of the run phase.
    Running,
    /// For the outcome of the stop signal that ends the run phase.
    AwaitStop,
    /// For the end of the stop phase.
    Stopped,
    /// For the end of a sleep of one period that closes a round.
    Resting,
    /// For the system load.
    AwaitLoad,
    /// For the samples of the processes.
    AwaitProcesses,
    /// For the outcome of the stop signal sent to the chosen process.
    AwaitSuspend { pid: i32 },
    /// For nothing: the engine has ended.
    Exited,
}

/// What the engine is doing, as its clients see it.
#[derive(Clone, Copy, Debug, PartialEq, Eq, Structural)]
pub enum Activity {
    /// Nothing: the limiter is switched off, or targeted mode has no
    /// process to aim at.
    Idle,
    /// Targeted mode, with the target running.
    TargetedRunning,
    /// Targeted mode, with the target suspended.
    TargetedStopped,
    /// Global mode, with no process suspended.
    GlobalMonitoring,
    /// Global mode, with at least one process suspended.
    GlobalThrottling,
}

/// The answer of the engine to one outcome.
#[derive(Clone, Debug, PartialEq, Eq)]
pub struct Plan {
    /// Processes to send a continue signal to, in this order and before
    /// anything else; whether they take it is not reported.
    pub releases: Vec<i32>,
    /// The action to perform after that; the engine waits for its outcome.
    pub action: Action,
}

} // verus!
