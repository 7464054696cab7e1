use cpu_limiter::config::LimiterMode;
use cpu_limiter::config::LimiterState;
use cpu_limiter::engine::Engine;
use cpu_limiter::global::ProcessSample;
use cpu_limiter::protocol::Action;
use cpu_limiter::protocol::Activity;
use cpu_limiter::protocol::Outcome;
use cpu_limiter::protocol::Plan;
use cpu_limiter::protocol::SignalKind;

const ME: i32 = 1;

fn global(limit: u32) -> Outcome {
    Outcome::Config {
        config: LimiterState {
            target_pid: None,
            limit_percentage: limit,
            mode: LimiterMode::Global,
            is_active: true,
        },
        stop: false,
    }
}

fn load(percent: u32) -> Outcome {
    exact_load(percent as f32)
}

fn exact_load(percent: f32) -> Outcome {
    Outcome::Load { usage: percent.to_bits() }
}

fn processes(samples: &[(i32, f32)]) -> Outcome {
    Outcome::Processes {
        samples: samples
            .iter()
            .map(|&(pid, percent)| ProcessSample { pid, usage: percent.to_bits() })
            .collect(),
    }
}

fn just(action: Action) -> Plan {
    Plan { releases: Vec::new(), action }
}

fn stop(pid: i32) -> Action {
    Action::Signal { pid, kind: SignalKind::Stop }
}

fn rest() -> Action {
    Action::Sleep { millis: 100 }
}

/// One round under a load above the limit, in which `pid` is expected to be suspended.
fn suspend_round(engine: &mut Engine, limit: u32, samples: &[(i32, f32)], pid: i32, t: u64) {
    assert_eq!(engine.step(global(limit), t), just(Action::SampleLoad));
    assert_eq!(engine.step(load(limit + 10), t), just(Action::ListProcesses));
    assert_eq!(engine.step(processes(samples), t), just(stop(pid)));
    assert_eq!(engine.step(Outcome::Signaled { delivered: true }, t), just(rest()));
    assert_eq!(engine.step(Outcome::Woke, t + 100), just(Action::ReadConfig));
}

#[test]
fn load_of_90_90_70_70_at_limit_80_suspends_once_and_resumes_once() {
    let mut engine = Engine::new(ME);
    let running = [(ME, 5.0), (40, 85.0), (41, 0.3)];

    // 90 > 80: the one busy process is suspended.
    assert_eq!(engine.step(global(80), 0), just(Action::SampleLoad));
    assert_eq!(engine.step(load(90), 0), just(Action::ListProcesses));
    assert_eq!(engine.step(processes(&running), 0), just(stop(40)));
    assert_eq!(engine.step(Outcome::Signaled { delivered: true }, 0), just(rest()));
    assert_eq!(engine.status().currently_paused_pids, vec![40]);
    assert_eq!(engine.status().pause_count, 1);
    assert_eq!(engine.step(Outcome::Woke, 100), just(Action::ReadConfig));

    // 90 > 80 again: nothing is left to suspend, and nothing is resumed.
    assert_eq!(engine.step(global(80), 100), just(Action::SampleLoad));
    assert_eq!(engine.step(load(90), 100), just(Action::ListProcesses));
    assert_eq!(engine.step(processes(&running), 100), just(rest()));
    assert_eq!(engine.status().currently_paused_pids, vec![40]);
    assert_eq!(engine.status().pause_count, 1);
    assert_eq!(engine.step(Outcome::Woke, 200), just(Action::ReadConfig));

    // 70 < 75: the process is resumed.
    assert_eq!(engine.step(global(80), 200), just(Action::SampleLoad));
    assert_eq!(engine.step(load(70), 200), Plan { releases: vec![40], action: rest() });
    assert_eq!(engine.status().currently_paused_pids, Vec::<i32>::new());
    assert!(!engine.status().is_actively_limiting);
    assert_eq!(engine.status().last_action_time, Some(200));
    assert_eq!(engine.step(Outcome::Woke, 300), just(Action::ReadConfig));

    // 70 < 75 again: nothing is left to resume.
    assert_eq!(engine.step(global(80), 300), just(Action::SampleLoad));
    assert_eq!(engine.step(load(70), 300), just(rest()));
    assert_eq!(engine.status().pause_count, 1);
    assert_eq!(engine.status().last_action_time, Some(200));
}

#[test]
fn load_between_threshold_and_limit_changes_nothing() {
    let mut engine = Engine::new(ME);
    suspend_round(&mut engine, 80, &[(40, 85.0)], 40, 0);
    for percent in [75u32, 76, 79, 80] {
        assert_eq!(engine.step(global(80), 100), just(Action::SampleLoad));
        assert_eq!(engine.step(load(percent), 100), just(rest()));
        assert_eq!(engine.status().currently_paused_pids, vec![40]);
        assert_eq!(engine.step(Outcome::Woke, 200), just(Action::ReadConfig));
    }
    assert_eq!(engine.step(global(80), 200), just(Action::SampleLoad));
    assert_eq!(
        engine.step(exact_load(74.99), 200),
        Plan { releases: vec![40], action: rest() }
    );
}

#[test]
fn load_just_above_the_limit_suspends() {
    let mut engine = Engine::new(ME);
    assert_eq!(engine.step(global(80), 0), just(Action::SampleLoad));
    assert_eq!(engine.step(exact_load(80.004), 0), just(Action::ListProcesses));
    engine.step(processes(&[]), 0);
    engine.step(Outcome::Woke, 100);
    assert_eq!(engine.step(global(80), 100), just(Action::SampleLoad));
    assert_eq!(engine.step(exact_load(80.0), 100), just(rest()));
}

#[test]
fn processes_are_resumed_in_the_order_of_their_suspension() {
    let mut engine = Engine::new(ME);
    let running = [(50, 20.0), (51, 60.0), (52, 40.0)];
    suspend_round(&mut engine, 50, &running, 51, 0);
    suspend_round(&mut engine, 50, &running, 52, 100);
    suspend_round(&mut engine, 50, &running, 50, 200);
    assert_eq!(engine.status().currently_paused_pids, vec![51, 52, 50]);
    assert_eq!(engine.activity(), Activity::GlobalThrottling);
    for (round, pid) in [51, 52, 50].into_iter().enumerate() {
        let t = 300 + 100 * round as u64;
        assert_eq!(engine.step(global(50), t), just(Action::SampleLoad));
        assert_eq!(engine.step(load(10), t), Plan { releases: vec![pid], action: rest() });
        assert_eq!(engine.step(Outcome::Woke, t + 100), just(Action::ReadConfig));
    }
    assert_eq!(engine.status().currently_paused_pids, Vec::<i32>::new());
    assert_eq!(engine.activity(), Activity::GlobalMonitoring);
    assert_eq!(engine.status().pause_count, 3);
}

#[test]
fn engine_does_not_suspend_itself() {
    let mut engine = Engine::new(ME);
    assert_eq!(engine.step(global(20), 0), just(Action::SampleLoad));
    assert_eq!(engine.step(load(99), 0), just(Action::ListProcesses));
    assert_eq!(engine.step(processes(&[(ME, 90.0), (60, 1.0)]), 0), just(stop(60)));
    engine.step(Outcome::Signaled { delivered: true }, 0);
    engine.step(Outcome::Woke, 100);
    assert_eq!(engine.step(global(20), 100), just(Action::SampleLoad));
    assert_eq!(engine.step(load(99), 100), just(Action::ListProcesses));
    assert_eq!(engine.step(processes(&[(ME, 90.0), (60, 1.0)]), 100), just(rest()));
}

#[test]
fn process_that_is_gone_is_not_put_on_the_books() {
    let mut engine = Engine::new(ME);
    assert_eq!(engine.step(global(50), 0), just(Action::SampleLoad));
    assert_eq!(engine.step(load(90), 0), just(Action::ListProcesses));
    assert_eq!(engine.step(processes(&[(70, 50.0)]), 0), just(stop(70)));
    assert_eq!(engine.step(Outcome::Signaled { delivered: false }, 0), just(rest()));
    assert_eq!(engine.status().currently_paused_pids, Vec::<i32>::new());
    assert!(!engine.status().is_actively_limiting);
    assert_eq!(engine.status().pause_count, 1);
}

#[test]
fn limit_within_the_hysteresis_never_resumes() {
    let mut engine = Engine::new(ME);
    suspend_round(&mut engine, 5, &[(80, 50.0)], 80, 0);
    assert_eq!(engine.step(global(5), 100), just(Action::SampleLoad));
    assert_eq!(engine.step(exact_load(0.0), 100), just(rest()));
    assert_eq!(engine.status().currently_paused_pids, vec![80]);
}

#[test]
fn own_hysteresis_is_used() {
    let mut engine = Engine::with_timing(ME, 100, 20);
    suspend_round(&mut engine, 80, &[(80, 50.0)], 80, 0);
    assert_eq!(engine.step(global(80), 100), just(Action::SampleLoad));
    assert_eq!(engine.step(load(60), 100), just(rest()));
    engine.step(Outcome::Woke, 200);
    assert_eq!(engine.step(global(80), 200), just(Action::SampleLoad));
    assert_eq!(engine.step(load(59), 200), Plan { releases: vec![80], action: rest() });
}

#[test]
fn unclamped_limit_above_hundred_is_compared_as_it_is() {
    let mut engine = Engine::new(ME);
    assert_eq!(engine.step(global(150), 0), just(Action::SampleLoad));
    assert_eq!(engine.step(load(120), 0), just(rest()));
    engine.step(Outcome::Woke, 100);
    assert_eq!(engine.step(global(150), 100), just(Action::SampleLoad));
    assert_eq!(engine.step(load(151), 100), just(Action::ListProcesses));
}
