use cpu_limiter::config::LimiterMode;
use cpu_limiter::config::LimiterState;
use cpu_limiter::engine::Engine;
use cpu_limiter::global::ProcessSample;
use cpu_limiter::limiter::Limiter;
use cpu_limiter::protocol::Action;
use cpu_limiter::protocol::Activity;
use cpu_limiter::protocol::Outcome;
use cpu_limiter::protocol::Phase;
use cpu_limiter::protocol::Plan;
use cpu_limiter::protocol::SignalKind;
use cpu_limiter::status::LimiterStatus;

const SELF_PID: i32 = 1;

fn config(mode: LimiterMode, target: Option<i32>, limit: u32, active: bool) -> Outcome {
    Outcome::Config {
        config: LimiterState {
            target_pid: target,
            limit_percentage: limit,
            mode,
            is_active: active,
        },
        stop: false,
    }
}

fn delivered() -> Outcome {
    Outcome::Signaled { delivered: true }
}

fn plain(action: Action) -> Plan {
    Plan { releases: Vec::new(), action }
}

/// Runs rounds in global mode until `pids` are suspended, in that order.
fn hold_globally(engine: &mut Engine, pids: &[i32]) {
    for (i, &pid) in pids.iter().enumerate() {
        let t = 100 * i as u64;
        engine.step(config(LimiterMode::Global, None, 10, true), t);
        engine.step(Outcome::Load { usage: 90.0f32.to_bits() }, t);
        let usage = 50.0f32.to_bits();
        engine.step(Outcome::Processes { samples: vec![ProcessSample { pid, usage }] }, t);
        engine.step(delivered(), t);
        engine.step(Outcome::Woke, t + 100);
    }
}

/// Runs one targeted round at a quarter limit that ends with `pid` suspended.
fn hold_target(engine: &mut Engine, pid: i32) -> Plan {
    let first = engine.step(config(LimiterMode::Targeted, Some(pid), 25, true), 0);
    engine.step(delivered(), 0);
    engine.step(Outcome::Woke, 25);
    engine.step(delivered(), 25);
    engine.step(Outcome::Woke, 100);
    first
}

#[test]
fn new_engine_waits_for_the_state_and_holds_nothing() {
    let engine = Engine::new(SELF_PID);
    assert_eq!(engine.pending(), Action::ReadConfig);
    assert_eq!(engine.phase(), Phase::Ready);
    assert_eq!(engine.activity(), Activity::Idle);
    assert!(!engine.is_finished());
    assert_eq!(engine.status(), LimiterStatus::blank());
}

#[test]
fn switched_off_engine_rests() {
    let mut engine = Engine::new(SELF_PID);
    for round in 0..3u64 {
        let read = config(LimiterMode::Targeted, Some(5), 50, false);
        assert_eq!(engine.step(read, round), plain(Action::Sleep { millis: 100 }));
        assert_eq!(engine.step(Outcome::Woke, round), plain(Action::ReadConfig));
    }
    assert_eq!(engine.status(), LimiterStatus::blank());
}

#[test]
fn switching_off_releases_the_target() {
    let mut limiter = Limiter::new();
    limiter.set_target(500);
    limiter.set_limit(25);
    limiter.toggle(true);
    let mut engine = Engine::new(SELF_PID);
    engine.step(limiter.snapshot(), 0);
    engine.step(delivered(), 0);
    engine.step(Outcome::Woke, 25);
    engine.step(delivered(), 25);
    assert_eq!(engine.status().currently_paused_pids, vec![500]);
    assert_eq!(limiter.toggle(false), Some(500));
    assert_eq!(engine.step(Outcome::Woke, 100), plain(Action::ReadConfig));
    let plan = engine.step(limiter.snapshot(), 100);
    assert_eq!(plan, Plan { releases: vec![500], action: Action::Sleep { millis: 100 } });
    let status = engine.status();
    assert_eq!(status.target_pid, None);
    assert!(!status.is_actively_limiting);
    assert_eq!(status.currently_paused_pids, Vec::<i32>::new());
    assert_eq!(status.last_action_time, Some(100));
    assert_eq!(engine.activity(), Activity::Idle);
}

#[test]
fn switching_off_releases_every_process_held_globally() {
    let mut engine = Engine::new(SELF_PID);
    hold_globally(&mut engine, &[31, 32, 33]);
    assert_eq!(engine.status().currently_paused_pids, vec![31, 32, 33]);
    let plan = engine.step(config(LimiterMode::Global, None, 10, false), 300);
    assert_eq!(plan, Plan { releases: vec![31, 32, 33], action: Action::Sleep { millis: 100 } });
    assert_eq!(engine.status().currently_paused_pids, Vec::<i32>::new());
    assert!(!engine.status().is_actively_limiting);
}

#[test]
fn stop_request_releases_everything_and_ends_the_engine() {
    let mut engine = Engine::new(SELF_PID);
    hold_globally(&mut engine, &[31, 32]);
    let mut limiter = Limiter::new();
    limiter.set_global(10);
    limiter.toggle(true);
    limiter.request_stop();
    let plan = engine.step(limiter.snapshot(), 200);
    assert_eq!(plan, Plan { releases: vec![31, 32], action: Action::Exit });
    assert!(engine.is_finished());
    assert_eq!(engine.phase(), Phase::Exited);
    assert_eq!(engine.status().currently_paused_pids, Vec::<i32>::new());
    assert_eq!(engine.step(limiter.snapshot(), 300), plain(Action::Exit));
    assert_eq!(engine.step(Outcome::Woke, 300), plain(Action::Exit));
    assert_eq!(engine.pending(), Action::Exit);
}

#[test]
fn stop_request_releases_the_target() {
    let mut engine = Engine::new(SELF_PID);
    hold_target(&mut engine, 500);
    let read = Outcome::Config {
        config: LimiterState {
            target_pid: Some(500),
            limit_percentage: 25,
            mode: LimiterMode::Targeted,
            is_active: true,
        },
        stop: true,
    };
    assert_eq!(engine.step(read, 100), Plan { releases: vec![500], action: Action::Exit });
    assert!(engine.is_finished());
}

#[test]
fn switch_from_global_to_targeted_releases_the_queue() {
    let mut engine = Engine::new(SELF_PID);
    hold_globally(&mut engine, &[31, 32]);
    let plan = engine.step(config(LimiterMode::Targeted, Some(500), 25, true), 200);
    assert_eq!(
        plan,
        Plan {
            releases: vec![31, 32],
            action: Action::Signal { pid: 500, kind: SignalKind::Continue },
        }
    );
    assert_eq!(engine.status().currently_paused_pids, Vec::<i32>::new());
    engine.step(delivered(), 200);
    engine.step(Outcome::Woke, 225);
    engine.step(delivered(), 225);
    assert_eq!(engine.status().currently_paused_pids, vec![500]);
}

#[test]
fn switch_from_global_to_targeted_without_target_releases_the_queue() {
    let mut engine = Engine::new(SELF_PID);
    hold_globally(&mut engine, &[31, 32]);
    let plan = engine.step(config(LimiterMode::Targeted, None, 25, true), 200);
    assert_eq!(plan, Plan { releases: vec![31, 32], action: Action::Sleep { millis: 100 } });
    assert_eq!(engine.activity(), Activity::Idle);
}

#[test]
fn switch_from_targeted_to_global_releases_the_target() {
    let mut engine = Engine::new(SELF_PID);
    hold_target(&mut engine, 500);
    assert_eq!(engine.activity(), Activity::TargetedStopped);
    let plan = engine.step(config(LimiterMode::Global, Some(500), 80, true), 100);
    assert_eq!(plan, Plan { releases: vec![500], action: Action::SampleLoad });
    assert_eq!(engine.status().target_pid, None);
    assert_eq!(engine.status().currently_paused_pids, Vec::<i32>::new());
    assert_eq!(engine.activity(), Activity::GlobalMonitoring);
}

#[test]
fn switching_there_and_back_holds_one_process_at_most() {
    let mut engine = Engine::new(SELF_PID);
    hold_target(&mut engine, 500);
    engine.step(config(LimiterMode::Global, Some(500), 10, true), 100);
    engine.step(Outcome::Load { usage: 90.0f32.to_bits() }, 100);
    let samples = vec![
        ProcessSample { pid: 500, usage: 70.0f32.to_bits() },
        ProcessSample { pid: 600, usage: 20.0f32.to_bits() },
    ];
    engine.step(Outcome::Processes { samples }, 100);
    engine.step(delivered(), 100);
    engine.step(Outcome::Woke, 200);
    assert_eq!(engine.status().currently_paused_pids, vec![500]);
    assert_eq!(engine.status().target_pid, None);
    let back = hold_target(&mut engine, 600);
    assert_eq!(
        back,
        Plan {
            releases: vec![500],
            action: Action::Signal { pid: 600, kind: SignalKind::Continue },
        }
    );
    assert_eq!(engine.status().currently_paused_pids, vec![600]);
    assert_eq!(engine.status().target_pid, Some(600));
}

#[test]
fn status_counts_stop_signals_and_keeps_the_time_of_the_last_signal() {
    let mut engine = Engine::new(SELF_PID);
    assert_eq!(engine.status().last_action_time, None);
    engine.step(config(LimiterMode::Targeted, Some(500), 25, true), 1_000);
    assert_eq!(engine.status().last_action_time, Some(1_000));
    assert_eq!(engine.status().pause_count, 0);
    engine.step(delivered(), 1_001);
    assert_eq!(engine.status().last_action_time, Some(1_000));
    engine.step(Outcome::Woke, 1_025);
    assert_eq!(engine.status().last_action_time, Some(1_025));
    assert_eq!(engine.status().pause_count, 1);
    engine.step(delivered(), 1_026);
    engine.step(Outcome::Woke, 1_100);
    assert_eq!(engine.status().last_action_time, Some(1_025));
    assert_eq!(engine.status().pause_count, 1);
    assert!(engine.status().is_actively_limiting);
}
