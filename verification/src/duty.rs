//! How one period is split between running and standing still.

use vstd::prelude::*;

verus! {

/// The duty-cycle period used when none is chosen, in milliseconds.
pub const DEFAULT_PERIOD_MS: u64 = 100;

/// The limit from which on a process runs for the whole period.
pub const FULL_LIMIT: u32 = 100;

/// Milliseconds of one period during which a process limited to `limit`
/// percent may run: `period_ms * limit / 100` rounded down, and never more
/// than the period itself.
pub open spec fn run_millis(period_ms: u64, limit: u32) -> u64 {
    if limit >= FULL_LIMIT {
        period_ms
    } else {
        (period_ms as int * limit as int / 100) as u64
    }
}

/// Milliseconds of one period during which the process stands still: what
/// `run_millis` leaves of the period.
pub open spec fn stop_millis(period_ms: u64, limit: u32) -> u64 {
    (period_ms - run_millis(period_ms, limit)) as u64
}

/// The two phases fill the period. Up to a limit of 100 percent the run
/// phase is the rounded-down share of the period; above, it is the period.
pub proof fn lemma_run_millis_bounds(period_ms: u64, limit: u32)
    ensures
        run_millis(period_ms, limit) <= period_ms,
        run_millis(period_ms, limit) + stop_millis(period_ms, limit) == period_ms,
        limit <= FULL_LIMIT ==> run_millis(period_ms, limit) == period_ms as int * limit as int
            / 100,
        limit > FULL_LIMIT ==> run_millis(period_ms, limit) == period_ms,
{
    let p = period_ms as int;
    let l = limit as int;
    if limit < FULL_LIMIT {
        assert(0 <= p * l <= p * 99) by (nonlinear_arith)
            requires
                0 <= p,
                0 <= l <= 99,
        ;
        assert(0 <= p * l / 100 <= p);
    } else if limit == FULL_LIMIT {
        assert(p * 100 / 100 == p);
    }
}

/// Splits one period into its run phase and its stop phase.
pub fn duty_cycle(period_ms: u64, limit: u32) -> (split: (u64, u64))
    ensures
        split.0 == run_millis(period_ms, limit),
        split.1 == stop_millis(period_ms, limit),
        split.0 + split.1 == period_ms,
{
    proof {
        lemma_run_millis_bounds(period_ms, limit);
    }
    if limit >= FULL_LIMIT {
        (period_ms, 0)
    } else {
        assert(period_ms as int * limit as int <= u64::MAX as int * 99) by (nonlinear_arith)
            requires
                0 <= period_ms <= u64::MAX,
                0 <= limit <= 99,
        ;
        let product: u128 = (period_ms as u128) * (limit as u128);
        let run: u64 = (product / 100) as u64;
        (run, period_ms - run)
    }
}

} // verus!
