use cpu_limiter::duty::duty_cycle;
use cpu_limiter::duty::DEFAULT_PERIOD_MS;

#[test]
fn quarter_limit_splits_the_default_period() {
    assert_eq!(DEFAULT_PERIOD_MS, 100);
    assert_eq!(duty_cycle(DEFAULT_PERIOD_MS, 25), (25, 75));
}

#[test]
fn run_phase_is_rounded_down() {
    assert_eq!(duty_cycle(33, 50), (16, 17));
    assert_eq!(duty_cycle(10, 99), (9, 1));
    assert_eq!(duty_cycle(7, 1), (0, 7));
    assert_eq!(duty_cycle(1000, 33), (330, 670));
}

#[test]
fn limits_at_the_ends_of_the_range() {
    assert_eq!(duty_cycle(100, 1), (1, 99));
    assert_eq!(duty_cycle(100, 99), (99, 1));
    assert_eq!(duty_cycle(100, 100), (100, 0));
    assert_eq!(duty_cycle(100, 0), (0, 100));
}

#[test]
fn limit_above_hundred_runs_the_whole_period() {
    assert_eq!(duty_cycle(100, 101), (100, 0));
    assert_eq!(duty_cycle(100, 150), (100, 0));
    assert_eq!(duty_cycle(250, u32::MAX), (250, 0));
}

#[test]
fn phases_add_up_to_the_period() {
    for period in [0u64, 1, 3, 99, 100, 101, 12_345] {
        for limit in 0..=120u32 {
            let (run, stop) = duty_cycle(period, limit);
            assert_eq!(run + stop, period);
            if limit <= 100 {
                assert_eq!(run, period * limit as u64 / 100);
            } else {
                assert_eq!(run, period);
            }
        }
    }
}

#[test]
fn longest_period_does_not_overflow() {
    let (run, stop) = duty_cycle(u64::MAX, 99);
    assert_eq!(run, ((u64::MAX as u128 * 99) / 100) as u64);
    assert_eq!(run + stop, u64::MAX);
    assert_eq!(duty_cycle(u64::MAX, 100), (u64::MAX, 0));
}
