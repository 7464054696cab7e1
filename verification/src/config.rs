//! The desired state of the limiter, as its clients set it.

use vstd::prelude::*;

verus! {

/// Lowest limit that the clamped setter stores.
pub const MIN_LIMIT: u32 = 1;

/// Highest limit that the clamped setter stores; at this limit nothing is throttled.
pub const MAX_LIMIT: u32 = 100;

/// What the limiter throttles.
#[derive(Clone, Copy, PartialEq, Eq, Debug, Structural)]
pub enum LimiterMode {
    /// One chosen process.
    Targeted,
    /// Whichever process uses the most CPU while the whole system is above the limit.
    Global,
}

/// What the clients of the limiter want it to do.
#[derive(Clone, Copy, PartialEq, Eq, Debug)]
pub struct LimiterState {
    /// The process to throttle in targeted mode.
    pub target_pid: Option<i32>,
    /// Percent of each period during which the throttled process may run, and
    /// the system load, in percent, above which global mode suspends a process.
    pub limit_percentage: u32,
    pub mode: LimiterMode,
    /// The master switch.
    pub is_active: bool,
}

/// The state of a limiter that nobody has touched yet: switched off, in
/// targeted mode without a target, at a limit that throttles nothing.
pub open spec fn initial_state() -> LimiterState {
    LimiterState {
        target_pid: None,
        limit_percentage: MAX_LIMIT,
        mode: LimiterMode::Targeted,
        is_active: false,
    }
}

/// The limit that the clamped setter stores for a requested limit.
pub open spec fn clamp_limit(limit: u32) -> u32 {
    if limit < MIN_LIMIT {
        MIN_LIMIT
    } else if limit > MAX_LIMIT {
        MAX_LIMIT
    } else {
        limit
    }
}

/// Brings a requested limit into the range from `MIN_LIMIT` to `MAX_LIMIT`.
pub fn clamped(limit: u32) -> (stored: u32)
    ensures
        stored == clamp_limit(limit),
        MIN_LIMIT <= stored <= MAX_LIMIT,
        MIN_LIMIT <= limit <= MAX_LIMIT ==> stored == limit,
{
    if limit < MIN_LIMIT {
        MIN_LIMIT
    } else if limit > MAX_LIMIT {
        MAX_LIMIT
    } else {
        limit
    }
}

} // verus!
