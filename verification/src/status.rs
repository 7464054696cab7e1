//! What the engine reports of its own doing.

use vstd::prelude::*;

verus! {

/// A copy of what the engine holds suspended and of what it has done so far.
#[derive(Clone, Debug, PartialEq, Eq)]
pub struct LimiterStatus {
    /// The process that targeted mode is aimed at.
    pub target_pid: Option<i32>,
    /// Whether at least one process is suspended by the engine.
    pub is_actively_limiting: bool,
    /// The suspended processes, the one suspended first in front.
    pub currently_paused_pids: Vec<i32>,
    /// How many stop signals the engine has issued.
    pub pause_count: u64,
    /// The time of the last signal that the engine has issued.
    pub last_action_time: Option<u64>,
}

impl LimiterStatus {
    /// The flag says whether the list of suspended processes holds anything.
    pub open spec fn consistent(self) -> bool {
        self.is_actively_limiting == (self.currently_paused_pids@.len() > 0)
    }

    /// Both hold the same values.
    pub open spec fn agrees(self, other: LimiterStatus) -> bool {
        &&& self.target_pid == other.target_pid
        &&& self.is_actively_limiting == other.is_actively_limiting
        &&& self.currently_paused_pids@ == other.currently_paused_pids@
        &&& self.pause_count == other.pause_count
        &&& self.last_action_time == other.last_action_time
    }

    /// The status of an engine that has not done anything.
    pub open spec fn is_blank(self) -> bool {
        &&& self.target_pid is None
        &&& !self.is_actively_limiting
        &&& self.currently_paused_pids@.len() == 0
        &&& self.pause_count == 0
        &&& self.last_action_time is None
    }

    /// The status before the engine has done anything.
    pub fn blank() -> (status: Self)
        ensures
            status.is_blank(),
            status.consistent(),
    {
        LimiterStatus {
            target_pid: None,
            is_actively_limiting: false,
            currently_paused_pids: Vec::new(),
            pause_count: 0,
            last_action_time: None,
        }
    }

    /// A copy with the same contents.
    pub fn duplicate(&self) -> (copy: Self)
        ensures
            copy.agrees(*self),
    {
        let mut pids: Vec<i32> = Vec::new();
        let mut i: usize = 0;
        while i < self.currently_paused_pids.len()
            invariant
                i <= self.currently_paused_pids@.len(),
                pids@ == self.currently_paused_pids@.subrange(0, i as int),
            decreases self.currently_paused_pids@.len() - i,
        {
            pids.push(self.currently_paused_pids[i]);
            assert(pids@ =~= self.currently_paused_pids@.subrange(0, i + 1));
            i = i + 1;
        }
        assert(pids@ =~= self.currently_paused_pids@);
        LimiterStatus {
            target_pid: self.target_pid,
            is_actively_limiting: self.is_actively_limiting,
            currently_paused_pids: pids,
            pause_count: self.pause_count,
            last_action_time: self.last_action_time,
        }
    }
}

} // verus!
