//! The policy of global limiting: when the system counts as overloaded, when
//! as relaxed, and which process is suspended next.
//!
//! CPU usage comes as the module [`crate::usage`] describes it, and is
//! compared exactly.

use crate::paused::PausedQueue;
use crate::usage::busier;
use crate::usage::exceeds;
use crate::usage::exceeds_half;
use crate::usage::falls_short;
use crate::usage::is_above;
use crate::usage::is_above_half;
use crate::usage::is_below;
use crate::usage::lemma_exceeds_excludes_falls_short;
use crate::usage::lemma_order_of_patterns;
use vstd::prelude::*;

verus! {

/// Percentage points between the limit and the load below which a process is resumed.
pub const DEFAULT_HYSTERESIS: u32 = 5;

/// The CPU usage of one process at the time of a sample.
#[derive(Clone, Copy, Debug, PartialEq, Eq)]
pub struct ProcessSample {
    pub pid: i32,
    /// The bit pattern of the usage in percent.
    pub usage: u32,
}

/// The system load `usage` lies above `limit` percent.
pub open spec fn over_limit(usage: u32, limit: u32) -> bool {
    exceeds(usage, limit)
}

/// The load from which on no process is resumed: `hysteresis` points
/// below the limit, and zero where the limit is no higher than that.
pub open spec fn resume_threshold(limit: u32, hysteresis: u32) -> u32 {
    if limit > hysteresis {
        (limit - hysteresis) as u32
    } else {
        0
    }
}

/// The system load `usage` lies below the resume threshold.
pub open spec fn under_threshold(usage: u32, limit: u32, hysteresis: u32) -> bool {
    falls_short(usage, resume_threshold(limit, hysteresis))
}

/// No load is above the limit and below the resume threshold at once.
pub proof fn lemma_thresholds_exclusive(usage: u32, limit: u32, hysteresis: u32)
    ensures
        !(over_limit(usage, limit) && under_threshold(usage, limit, hysteresis)),
{
    lemma_exceeds_excludes_falls_short(usage, limit, resume_threshold(limit, hysteresis));
}

/// Whether the load lies above the limit.
pub fn is_over_limit(usage: u32, limit: u32) -> (over: bool)
    ensures
        over == over_limit(usage, limit),
{
    is_above(usage, limit)
}

/// Whether the load lies below the resume threshold.
pub fn is_under_threshold(usage: u32, limit: u32, hysteresis: u32) -> (under: bool)
    ensures
        under == under_threshold(usage, limit, hysteresis),
{
    if limit > hysteresis {
        is_below(usage, limit - hysteresis)
    } else {
        is_below(usage, 0)
    }
}

/// A process that may be suspended: not the limiter itself, not held
/// suspended already, and busier than the noise floor of half a percent.
pub open spec fn eligible(sample: ProcessSample, own_pid: i32, paused: Seq<i32>) -> bool {
    &&& sample.pid != own_pid
    &&& !paused.contains(sample.pid)
    &&& exceeds_half(sample.usage)
}

/// Among the first `n` samples, the one at `i` is eligible, no eligible one
/// is busier, and every eligible one before it is less busy.
pub open spec fn is_pick_among(
    samples: Seq<ProcessSample>,
    own_pid: i32,
    paused: Seq<i32>,
    n: int,
    i: int,
) -> bool {
    &&& 0 <= i < n <= samples.len()
    &&& eligible(samples[i], own_pid, paused)
    &&& forall|j: int|
        0 <= j < n && eligible(#[trigger] samples[j], own_pid, paused) ==> !busier(
            samples[j].usage,
            samples[i].usage,
        )
    &&& forall|j: int|
        0 <= j < i && eligible(#[trigger] samples[j], own_pid, paused) ==> busier(
            samples[i].usage,
            samples[j].usage,
        )
}

/// The sample at `i` is the busiest eligible one, the first of them where
/// several are equally busy.
pub open spec fn is_pick(
    samples: Seq<ProcessSample>,
    own_pid: i32,
    paused: Seq<i32>,
    i: int,
) -> bool {
    is_pick_among(samples, own_pid, paused, samples.len() as int, i)
}

/// The process to suspend next: the busiest eligible one, or none where no
/// sample is eligible.
pub open spec fn candidate(samples: Seq<ProcessSample>, own_pid: i32, paused: Seq<i32>) -> Option<
    i32,
> {
    if exists|i: int| is_pick(samples, own_pid, paused, i) {
        Some(samples[choose|i: int| is_pick(samples, own_pid, paused, i)].pid)
    } else {
        None
    }
}

/// At most one sample is the pick.
pub proof fn lemma_pick_unique(
    samples: Seq<ProcessSample>,
    own_pid: i32,
    paused: Seq<i32>,
    i: int,
    j: int,
)
    requires
        is_pick(samples, own_pid, paused, i),
        is_pick(samples, own_pid, paused, j),
    ensures
        i == j,
{
}

/// The pick among the first `n` samples, where one of them is eligible.
proof fn lemma_pick_among_exists(
    samples: Seq<ProcessSample>,
    own_pid: i32,
    paused: Seq<i32>,
    n: int,
) -> (found: Option<int>)
    requires
        0 <= n <= samples.len(),
    ensures
        match found {
            Some(i) => is_pick_among(samples, own_pid, paused, n, i),
            None => forall|j: int| 0 <= j < n ==> !eligible(#[trigger] samples[j], own_pid, paused),
        },
    decreases n,
{
    if n == 0 {
        None
    } else {
        let before = lemma_pick_among_exists(samples, own_pid, paused, n - 1);
        let last = n - 1;
        if eligible(samples[last], own_pid, paused) {
            match before {
                Some(i) => {
                    if busier(samples[last].usage, samples[i].usage) {
                        Some(last)
                    } else {
                        Some(i)
                    }
                },
                None => Some(last),
            }
        } else {
            before
        }
    }
}

/// A candidate is an eligible sample that no eligible sample exceeds, and
/// there is one exactly where some sample is eligible.
pub proof fn lemma_candidate(samples: Seq<ProcessSample>, own_pid: i32, paused: Seq<i32>)
    ensures
        candidate(samples, own_pid, paused) is None <==> forall|j: int|
            0 <= j < samples.len() ==> !eligible(#[trigger] samples[j], own_pid, paused),
        candidate(samples, own_pid, paused) matches Some(pid) ==> {
            &&& pid != own_pid
            &&& !paused.contains(pid)
            &&& exists|i: int| is_pick(samples, own_pid, paused, i) && samples[i].pid == pid
        },
{
    let found = lemma_pick_among_exists(samples, own_pid, paused, samples.len() as int);
    match found {
        Some(i) => {
            assert(is_pick(samples, own_pid, paused, i));
        },
        None => {
            assert forall|i: int| !is_pick(samples, own_pid, paused, i) by {}
        },
    }
}

/// Chooses the process to suspend next.
pub fn select_candidate(samples: &Vec<ProcessSample>, own_pid: i32, paused: &PausedQueue) -> (pick:
    Option<i32>)
    ensures
        pick == candidate(samples@, own_pid, paused@),
{
    let mut best: Option<usize> = None;
    let mut i: usize = 0;
    while i < samples.len()
        invariant
            i <= samples@.len(),
            match best {
                Some(b) => is_pick_among(samples@, own_pid, paused@, i as int, b as int),
                None => forall|j: int|
                    0 <= j < i ==> !eligible(#[trigger] samples@[j], own_pid, paused@),
            },
        decreases samples@.len() - i,
    {
        let sample = samples[i];
        if sample.pid != own_pid && is_above_half(sample.usage) && !paused.contains(sample.pid) {
            match best {
                Some(b) => {
                    proof {
                        lemma_order_of_patterns(samples@[b as int].usage, sample.usage);
                    }
                    if samples[b].usage < sample.usage {
                        best = Some(i);
                    }
                },
                None => {
                    best = Some(i);
                },
            }
        }
        i = i + 1;
    }
    match best {
        Some(b) => {
            proof {
                let c = choose|c: int| is_pick(samples@, own_pid, paused@, c);
                lemma_pick_unique(samples@, own_pid, paused@, b as int, c);
            }
            Some(samples[b].pid)
        },
        None => {
            proof {
                assert forall|c: int| !is_pick(samples@, own_pid, paused@, c) by {}
            }
            None
        },
    }
}

} // verus!
