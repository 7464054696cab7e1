use cpu_limiter::config::clamped;
use cpu_limiter::config::LimiterMode;
use cpu_limiter::config::LimiterState;
use cpu_limiter::limiter::Limiter;
use cpu_limiter::protocol::Outcome;
use cpu_limiter::status::LimiterStatus;

#[test]
fn test_limiter_state_changes() {
    let mut limiter = Limiter::new();

    // Initial state
    let state = limiter.get_state();
    assert_eq!(state.mode, LimiterMode::Targeted);
    assert_eq!(state.is_active, false);

    // Set target
    limiter.set_target(1234);
    let state = limiter.get_state();
    assert_eq!(state.target_pid, Some(1234));
    assert_eq!(state.mode, LimiterMode::Targeted);

    // Toggle active
    limiter.toggle(true);
    let state = limiter.get_state();
    assert_eq!(state.is_active, true);

    // Set global
    limiter.set_global(80);
    let state = limiter.get_state();
    assert_eq!(state.mode, LimiterMode::Global);
    assert_eq!(state.limit_percentage, 80);

    // Back to target
    limiter.set_target(5678);
    let state = limiter.get_state();
    assert_eq!(state.mode, LimiterMode::Targeted);
    assert_eq!(state.target_pid, Some(5678));
}

#[test]
fn new_limiter_is_off_without_target_at_full_limit() {
    let limiter = Limiter::new();
    assert_eq!(
        limiter.get_state(),
        LimiterState {
            target_pid: None,
            limit_percentage: 100,
            mode: LimiterMode::Targeted,
            is_active: false,
        }
    );
    assert_eq!(limiter.get_status(), LimiterStatus::blank());
    assert_eq!(
        limiter.snapshot(),
        Outcome::Config { config: limiter.get_state(), stop: false }
    );
}

#[test]
fn set_limit_keeps_values_in_range() {
    let mut limiter = Limiter::new();
    for limit in 1..=100u32 {
        limiter.set_limit(limit);
        assert_eq!(limiter.get_state().limit_percentage, limit);
    }
}

#[test]
fn set_limit_clamps_values_out_of_range() {
    let mut limiter = Limiter::new();
    limiter.set_limit(0);
    assert_eq!(limiter.get_state().limit_percentage, 1);
    limiter.set_limit(101);
    assert_eq!(limiter.get_state().limit_percentage, 100);
    limiter.set_limit(u32::MAX);
    assert_eq!(limiter.get_state().limit_percentage, 100);
}

#[test]
fn clamped_is_the_identity_between_one_and_hundred() {
    assert_eq!(clamped(0), 1);
    assert_eq!(clamped(1), 1);
    assert_eq!(clamped(2), 2);
    assert_eq!(clamped(57), 57);
    assert_eq!(clamped(99), 99);
    assert_eq!(clamped(100), 100);
    assert_eq!(clamped(101), 100);
    assert_eq!(clamped(4_000_000_000), 100);
}

#[test]
fn set_limit_changes_nothing_else() {
    let mut limiter = Limiter::new();
    limiter.set_target(7);
    limiter.toggle(true);
    limiter.set_limit(30);
    assert_eq!(
        limiter.get_state(),
        LimiterState {
            target_pid: Some(7),
            limit_percentage: 30,
            mode: LimiterMode::Targeted,
            is_active: true,
        }
    );
}

#[test]
fn set_global_stores_the_limit_as_given() {
    let mut limiter = Limiter::new();
    limiter.set_global(150);
    assert_eq!(limiter.get_state().limit_percentage, 150);
    assert_eq!(limiter.get_state().mode, LimiterMode::Global);
    limiter.set_global(0);
    assert_eq!(limiter.get_state().limit_percentage, 0);
}

#[test]
fn mode_and_target_changes_leave_the_switch_alone() {
    let mut limiter = Limiter::new();
    limiter.toggle(true);
    limiter.set_global(40);
    assert!(limiter.get_state().is_active);
    limiter.set_target(99);
    assert!(limiter.get_state().is_active);
    limiter.set_limit(10);
    assert!(limiter.get_state().is_active);
    assert_eq!(limiter.get_state().target_pid, Some(99));
}

#[test]
fn set_global_keeps_the_target() {
    let mut limiter = Limiter::new();
    limiter.set_target(321);
    limiter.set_global(70);
    assert_eq!(limiter.get_state().target_pid, Some(321));
}

#[test]
fn toggle_off_names_the_target_to_resume() {
    let mut limiter = Limiter::new();
    assert_eq!(limiter.toggle(false), None);
    limiter.set_target(4242);
    assert_eq!(limiter.toggle(true), None);
    assert!(limiter.get_state().is_active);
    assert_eq!(limiter.toggle(false), Some(4242));
    assert!(!limiter.get_state().is_active);
    assert_eq!(limiter.get_state().target_pid, Some(4242));
}

#[test]
fn published_status_is_read_back() {
    let mut limiter = Limiter::new();
    let status = LimiterStatus {
        target_pid: Some(5),
        is_actively_limiting: true,
        currently_paused_pids: vec![5],
        pause_count: 12,
        last_action_time: Some(1_000),
    };
    limiter.publish(status.clone());
    assert_eq!(limiter.get_status(), status);
    assert_eq!(limiter.get_status().duplicate(), status);
    assert_eq!(limiter.get_state().target_pid, None);
}

#[test]
fn stop_request_shows_in_the_snapshot() {
    let mut limiter = Limiter::new();
    limiter.set_global(80);
    limiter.request_stop();
    assert_eq!(
        limiter.snapshot(),
        Outcome::Config { config: limiter.get_state(), stop: true }
    );
}
