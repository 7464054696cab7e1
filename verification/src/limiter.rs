//! The control surface: the record that the clients of the limiter write
//! and its engine reads, and the status that goes the other way.
//!
//! The record does nothing by itself. Whoever shares it between tasks
//! guards it with a lock that is held for one call at a time.

use crate::config::clamp_limit;
use crate::config::clamped;
use crate::config::initial_state;
use crate::config::LimiterMode;
use crate::config::LimiterState;
use crate::config::MAX_LIMIT;
use crate::protocol::Outcome;
use crate::status::LimiterStatus;
use vstd::prelude::*;

verus! {

/// The desired state, the last status that the engine has published, and
/// the request to end the engine.
pub struct Limiter {
    state: LimiterState,
    status: LimiterStatus,
    stop_requested: bool,
}

impl Limiter {
    /// The desired state.
    pub closed spec fn wanted(&self) -> LimiterState {
        self.state
    }

    /// The status that the engine has last published.
    pub closed spec fn reported(&self) -> LimiterStatus {
        self.status
    }

    /// Whether the engine is asked to end.
    pub closed spec fn stopping(&self) -> bool {
        self.stop_requested
    }

    /// A limiter that is switched off, in targeted mode without a target,
    /// at a limit of 100 percent, with a blank status.
    pub fn new() -> (limiter: Self)
        ensures
            limiter.wanted() == initial_state(),
            limiter.reported().is_blank(),
            !limiter.stopping(),
    {
        Limiter {
            state: LimiterState {
                target_pid: None,
                limit_percentage: MAX_LIMIT,
                mode: LimiterMode::Targeted,
                is_active: false,
            },
            status: LimiterStatus::blank(),
            stop_requested: false,
        }
    }

    /// Aims the limiter at `pid` and puts it into targeted mode. The process
    /// targeted before is left to the engine.
    pub fn set_target(&mut self, pid: i32)
        ensures
            final(self).wanted() == (LimiterState {
                target_pid: Some(pid),
                mode: LimiterMode::Targeted,
                ..old(self).wanted()
            }),
            final(self).reported() == old(self).reported(),
            final(self).stopping() == old(self).stopping(),
    {
        self.state.target_pid = Some(pid);
        self.state.mode = LimiterMode::Targeted;
    }

    /// Puts the limiter into global mode and stores `limit` as it is given,
    /// outside the range from 1 to 100 too.
    pub fn set_global(&mut self, limit: u32)
        ensures
            final(self).wanted() == (LimiterState {
                mode: LimiterMode::Global,
                limit_percentage: limit,
                ..old(self).wanted()
            }),
            final(self).reported() == old(self).reported(),
            final(self).stopping() == old(self).stopping(),
    {
        self.state.mode = LimiterMode::Global;
        self.state.limit_percentage = limit;
    }

    /// Stores `limit`, brought into the range from 1 to 100.
    pub fn set_limit(&mut self, limit: u32)
        ensures
            final(self).wanted() == (LimiterState {
                limit_percentage: clamp_limit(limit),
                ..old(self).wanted()
            }),
            1 <= limit <= 100 ==> final(self).wanted().limit_percentage == limit,
            limit < 1 ==> final(self).wanted().limit_percentage == 1,
            limit > 100 ==> final(self).wanted().limit_percentage == 100,
            final(self).reported() == old(self).reported(),
            final(self).stopping() == old(self).stopping(),
    {
        self.state.limit_percentage = clamped(limit);
    }

    /// Switches the limiter on or off. Switching it off names the target,
    /// if there is one: the caller sends it a continue signal at once, and
    /// the engine releases what it holds when it next reads the state.
    pub fn toggle(&mut self, active: bool) -> (resume: Option<i32>)
        ensures
            final(self).wanted() == (LimiterState { is_active: active, ..old(self).wanted() }),
            resume == if active {
                None
            } else {
                old(self).wanted().target_pid
            },
            final(self).reported() == old(self).reported(),
            final(self).stopping() == old(self).stopping(),
    {
        self.state.is_active = active;
        if active {
            None
        } else {
            self.state.target_pid
        }
    }

    /// A copy of the desired state.
    pub fn get_state(&self) -> (state: LimiterState)
        ensures
            state == self.wanted(),
    {
        self.state
    }

    /// A copy of the status that the engine has last published.
    pub fn get_status(&self) -> (status: LimiterStatus)
        ensures
            status.agrees(self.reported()),
    {
        self.status.duplicate()
    }

    /// Stores the status of the engine for the clients to read.
    pub fn publish(&mut self, status: LimiterStatus)
        ensures
            final(self).reported() == status,
            final(self).wanted() == old(self).wanted(),
            final(self).stopping() == old(self).stopping(),
    {
        self.status = status;
    }

    /// Asks the engine to end. It does so, and releases what it holds, when
    /// it next reads the state.
    pub fn request_stop(&mut self)
        ensures
            final(self).stopping(),
            final(self).wanted() == old(self).wanted(),
            final(self).reported() == old(self).reported(),
    {
        self.stop_requested = true;
    }

    /// What the engine reads at the start of a round: the desired state and
    /// the request to end.
    pub fn snapshot(&self) -> (read: Outcome)
        ensures
            read == (Outcome::Config { config: self.wanted(), stop: self.stopping() }),
    {
        Outcome::Config { config: self.state, stop: self.stop_requested }
    }
}

} // verus!
