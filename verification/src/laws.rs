//! What holds of the engine whatever its driver reports.

use crate::config::LimiterMode;
use crate::config::LimiterState;
use crate::duty::lemma_run_millis_bounds;
use crate::duty::run_millis;
use crate::duty::stop_millis;
use crate::global::eligible;
use crate::global::is_pick;
use crate::global::lemma_candidate;
use crate::global::lemma_thresholds_exclusive;
use crate::global::over_limit;
use crate::global::under_threshold;
use crate::global::ProcessSample;
use crate::model::held_pids;
use crate::model::held_seq;
use crate::model::initial;
use crate::model::inv;
use crate::model::next;
use crate::model::pending;
use crate::model::releases;
use crate::model::suspended;
use crate::model::takes_up;
use crate::model::activity;
use crate::model::answers;
use crate::model::EngineView;
use crate::protocol::Action;
use crate::protocol::Outcome;
use crate::protocol::Phase;
use crate::protocol::SignalKind;
use vstd::prelude::*;

verus! {

/// The state after a history of outcomes, each with the time of its report.
pub open spec fn run(m: EngineView, history: Seq<(Outcome, u64)>) -> EngineView
    decreases history.len(),
{
    if history.len() == 0 {
        m
    } else {
        next(run(m, history.drop_last()), history.last().0, history.last().1)
    }
}

/// A new engine is in order.
pub proof fn lemma_initial_inv(own_pid: i32, period_ms: u64, hysteresis: u32)
    ensures
        inv(initial(own_pid, period_ms, hysteresis)),
        held_pids(initial(own_pid, period_ms, hysteresis)).len() == 0,
        pending(initial(own_pid, period_ms, hysteresis)) == Action::ReadConfig,
{
}

/// A queue without its head holds nothing twice, and nothing that the
/// whole queue did not hold.
proof fn lemma_queue_without_head(queue: Seq<i32>, absent: i32)
    requires
        queue.len() > 0,
        queue.no_duplicates(),
        !queue.contains(absent),
    ensures
        queue.drop_first().no_duplicates(),
        !queue.drop_first().contains(absent),
{
    let rest = queue.drop_first();
    assert forall|i: int| 0 <= i < rest.len() implies rest[i] == queue[i + 1] by {}
}

/// A queue with one more process behind the others holds nothing twice
/// where the process was not in it, and nothing but the process that the
/// queue did not hold before.
proof fn lemma_queue_with_one_more(queue: Seq<i32>, pid: i32, absent: i32)
    requires
        queue.no_duplicates(),
        !queue.contains(pid),
        !queue.contains(absent),
        pid != absent,
    ensures
        queue.push(pid).no_duplicates(),
        !queue.push(pid).contains(absent),
{
    let longer = queue.push(pid);
    assert forall|i: int| 0 <= i < queue.len() implies longer[i] == queue[i] by {}
}

/// Whatever is reported, the engine stays in order, keeps its timing and
/// its own identifier, its count of stop signals does not fall, and at most
/// one more process is suspended than before.
pub proof fn lemma_step_keeps_inv(m: EngineView, outcome: Outcome, now: u64)
    requires
        inv(m),
    ensures
        inv(next(m, outcome, now)),
        next(m, outcome, now).period_ms == m.period_ms,
        next(m, outcome, now).hysteresis == m.hysteresis,
        next(m, outcome, now).own_pid == m.own_pid,
        next(m, outcome, now).pause_count >= m.pause_count,
        suspended(next(m, outcome, now)).len() <= suspended(m).len() + 1,
{
    lemma_run_millis_bounds(m.period_ms, m.limit);
    match outcome {
        Outcome::Processes { samples } => {
            lemma_candidate(samples@, m.own_pid, m.paused);
        },
        Outcome::Load { usage } => {
            if m.paused.len() > 0 {
                lemma_queue_without_head(m.paused, m.own_pid);
            }
        },
        Outcome::Signaled { delivered } => {
            if let Phase::AwaitSuspend { pid } = m.phase {
                lemma_queue_with_one_more(m.paused, pid, m.own_pid);
            }
        },
        _ => {},
    }
}

/// After every history of outcomes the engine is in order.
pub proof fn lemma_run_keeps_inv(m: EngineView, history: Seq<(Outcome, u64)>)
    requires
        inv(m),
    ensures
        inv(run(m, history)),
        run(m, history).period_ms == m.period_ms,
        run(m, history).hysteresis == m.hysteresis,
        run(m, history).own_pid == m.own_pid,
        run(m, history).pause_count >= m.pause_count,
    decreases history.len(),
{
    if history.len() > 0 {
        lemma_run_keeps_inv(m, history.drop_last());
        lemma_step_keeps_inv(run(m, history.drop_last()), history.last().0, history.last().1);
    }
}

/// The two modes never hold processes at the same time: while targeted
/// mode has a process on its books, global mode holds none, and at most that
/// one process is suspended. The engine itself is never among the processes
/// that global mode holds or sends a signal to, and none of them is held
/// twice. While the limiter is switched off nothing is suspended and no
/// signal is pending.
pub proof fn lemma_one_mode_holds(m: EngineView)
    requires
        inv(m),
    ensures
        m.held_target is Some ==> m.mode == Some(LimiterMode::Targeted),
        m.paused.len() > 0 ==> m.mode == Some(LimiterMode::Global),
        m.held_target is Some ==> m.paused.len() == 0 && suspended(m).len() <= 1,
        m.held_target is None ==> suspended(m) == m.paused,
        !m.paused.contains(m.own_pid),
        m.paused.no_duplicates(),
        activity(m) is Idle ==> suspended(m).len() == 0,
        activity(m) is TargetedStopped <==> m.target_stopped,
        activity(m) is GlobalThrottling <==> m.paused.len() > 0,
        m.mode is None ==> suspended(m).len() == 0 && !(pending(m) is Signal),
        m.mode == Some(LimiterMode::Global) ==> forall|pid: i32, kind: SignalKind| #[trigger]
            pending(m) == (Action::Signal { pid, kind }) ==> {
                &&& kind == SignalKind::Stop
                &&& pid != m.own_pid
                &&& !m.paused.contains(pid)
            },
{
}

/// A process counts as suspended only once it has taken a stop signal of
/// the engine: whatever is reported, a process that is suspended afterwards
/// and was not before is the one that the pending stop signal went to, and the
/// report says that it took the signal.
pub proof fn lemma_suspended_only_by_stop_signal(
    m: EngineView,
    outcome: Outcome,
    now: u64,
    pid: i32,
)
    requires
        inv(m),
        !suspended(m).contains(pid),
        suspended(next(m, outcome, now)).contains(pid),
    ensures
        outcome == (Outcome::Signaled { delivered: true }),
        pending(m) == (Action::Signal { pid, kind: SignalKind::Stop }),
{
}

/// No suspended process is forgotten: whatever is reported, a process
/// that was suspended and is not any more has been sent a continue signal,
/// either the pending one or one among the releases of this step.
pub proof fn lemma_resumed_only_by_continue_signal(
    m: EngineView,
    outcome: Outcome,
    now: u64,
    pid: i32,
)
    requires
        inv(m),
        suspended(m).contains(pid),
        !suspended(next(m, outcome, now)).contains(pid),
    ensures
        releases(m, outcome).contains(pid) || pending(m) == (Action::Signal {
            pid,
            kind: SignalKind::Continue,
        }),
{
    let after = next(m, outcome, now);
    let released = releases(m, outcome);
    let i = choose|i: int| 0 <= i < suspended(m).len() && suspended(m)[i] == pid;
    if answers(m.phase, outcome) {
        match outcome {
            Outcome::Config { config, stop } => {
                if !m.target_stopped && after.paused != m.paused {
                    assert(released[held_seq(m.held_target).len() + i] == pid || released[i]
                        == pid);
                }
            },
            Outcome::Signaled { delivered } => {
                if m.phase is AwaitSuspend {
                    assert(after.paused[i] == pid);
                }
            },
            Outcome::Load { usage } => {
                if after.paused != m.paused {
                    if i > 0 {
                        assert(after.paused[i - 1] == pid);
                    } else {
                        assert(released[0] == pid);
                    }
                }
            },
            _ => {},
        }
    }
}

/// Whatever happened before, a round that begins in targeted mode leaves
/// nothing on the books of global mode: every process held there gets its
/// continue signal, and at most one process is suspended afterwards.
pub proof fn lemma_switch_to_targeted(
    start: EngineView,
    history: Seq<(Outcome, u64)>,
    config: LimiterState,
    now: u64,
)
    requires
        inv(start),
        run(start, history).phase is Ready,
        config.is_active,
        config.mode is Targeted,
    ensures
        ({
            let before = run(start, history);
            let read = Outcome::Config { config, stop: false };
            let after = next(before, read, now);
            &&& after.paused.len() == 0
            &&& suspended(after).len() <= 1
            &&& after.held_target == if takes_up(before, config) {
                config.target_pid
            } else {
                None
            }
            &&& forall|pid: i32| #[trigger]
                before.paused.contains(pid) ==> releases(before, read).contains(pid)
            &&& before.held_target is Some && before.held_target != config.target_pid
                ==> releases(before, read).contains(before.held_target.unwrap())
        }),
{
    lemma_run_keeps_inv(start, history);
    let before = run(start, history);
    let released = releases(before, Outcome::Config { config, stop: false });
    assert forall|pid: i32| #[trigger] before.paused.contains(pid) implies released.contains(
        pid,
    ) by {
        let i = choose|i: int| 0 <= i < before.paused.len() && before.paused[i] == pid;
        assert(released[i] == pid);
    }
    if before.held_target is Some && before.held_target != config.target_pid {
        assert(released[before.paused.len() as int] == before.held_target.unwrap());
    }
}

/// Whatever happened before, a round that begins in global mode leaves
/// nothing on the books of targeted mode: the process held there gets its
/// continue signal, and the processes that global mode holds stay as they are.
pub proof fn lemma_switch_to_global(
    start: EngineView,
    history: Seq<(Outcome, u64)>,
    config: LimiterState,
    now: u64,
)
    requires
        inv(start),
        run(start, history).phase is Ready,
        config.is_active,
        config.mode is Global,
    ensures
        ({
            let before = run(start, history);
            let read = Outcome::Config { config, stop: false };
            let after = next(before, read, now);
            &&& after.held_target is None
            &&& !after.target_stopped
            &&& after.paused == before.paused
            &&& releases(before, read) == held_seq(before.held_target)
            &&& pending(after) == Action::SampleLoad
        }),
{
    lemma_run_keeps_inv(start, history);
}

/// Once the limiter is switched off, or the engine is asked to end, the
/// round that begins next sends a continue signal to every process on the
/// books of the engine and leaves nothing on them. The engine then rests
/// for one period, or ends.
pub proof fn lemma_switched_off_releases_all(
    m: EngineView,
    config: LimiterState,
    stop: bool,
    now: u64,
)
    requires
        inv(m),
        m.phase is Ready,
        stop || !config.is_active,
    ensures
        ({
            let read = Outcome::Config { config, stop };
            let after = next(m, read, now);
            &&& releases(m, read) == held_pids(m)
            &&& forall|pid: i32| #[trigger]
                suspended(m).contains(pid) ==> releases(m, read).contains(pid)
            &&& held_pids(after).len() == 0
            &&& suspended(after).len() == 0
            &&& activity(after) is Idle
            &&& pending(after) == if stop {
                Action::Exit
            } else {
                Action::Sleep { millis: m.period_ms }
            }
        }),
{
    let released = releases(m, Outcome::Config { config, stop });
    assert forall|pid: i32| #[trigger] suspended(m).contains(pid) implies released.contains(
        pid,
    ) by {
        let i = choose|i: int| 0 <= i < suspended(m).len() && suspended(m)[i] == pid;
        if m.target_stopped {
            assert(released[i] == pid);
        } else {
            assert(released[held_seq(m.held_target).len() + i] == pid);
        }
    }
}

/// An engine that has ended stays so and holds nothing.
pub proof fn lemma_exited_is_final(m: EngineView, outcome: Outcome, now: u64)
    requires
        inv(m),
        m.phase is Exited,
    ensures
        next(m, outcome, now) == m,
        releases(m, outcome).len() == 0,
        held_pids(m).len() == 0,
        pending(m) == Action::Exit,
{
}

/// An upper bound on the time that the engine still sleeps, with a process
/// on its books, before it reads the desired state again.
pub open spec fn hold_time_ahead(m: EngineView) -> int {
    match m.phase {
        Phase::Ready | Phase::Exited => 0,
        Phase::AwaitStop | Phase::Stopped => stop_millis(m.period_ms, m.limit) as int,
        Phase::Resting => if held_pids(m).len() > 0 {
            m.period_ms as int
        } else {
            0
        },
        _ => m.period_ms as int,
    }
}

/// The time that the pending action takes while a process is on the books.
pub open spec fn hold_time_now(m: EngineView) -> int {
    match pending(m) {
        Action::Sleep { millis } => if held_pids(m).len() > 0 {
            millis as int
        } else {
            0
        },
        _ => 0,
    }
}

/// An upper bound on the number of outcomes that the engine still takes
/// before it reads the desired state again.
pub open spec fn steps_ahead(phase: Phase) -> int {
    match phase {
        Phase::Ready | Phase::Exited => 0,
        Phase::Stopped | Phase::Resting => 1,
        Phase::AwaitStop | Phase::AwaitSuspend { .. } => 2,
        Phase::Running | Phase::AwaitProcesses => 3,
        Phase::AwaitContinue | Phase::AwaitLoad => 4,
    }
}

/// Every round ends, and soon: from every state the engine reads the
/// desired state again after at most four outcomes, and after it has slept,
/// with a process on its books, for at most one period. Both bounds fall
/// with every outcome that answers the pending action, the second by the time
/// that the action takes. So a limiter that is switched off, or an engine that
/// is asked to end, holds no process for longer than one period.
pub proof fn lemma_state_read_within_one_period(m: EngineView, outcome: Outcome, now: u64)
    requires
        inv(m),
    ensures
        0 <= hold_time_ahead(m) <= m.period_ms,
        0 <= steps_ahead(m.phase) <= 4,
        steps_ahead(m.phase) == 0 <==> m.phase is Ready || m.phase is Exited,
        !(m.phase is Ready) && answers(m.phase, outcome) ==> {
            &&& hold_time_now(m) + hold_time_ahead(next(m, outcome, now)) <= hold_time_ahead(m)
            &&& steps_ahead(next(m, outcome, now).phase) < steps_ahead(m.phase)
        },
        !answers(m.phase, outcome) ==> next(m, outcome, now) == m,
{
    lemma_run_millis_bounds(m.period_ms, m.limit);
    lemma_step_keeps_inv(m, outcome, now);
}

/// No state before an outcome of the history is one in which the engine
/// waits for the desired state: the history lies within one round.
pub open spec fn within_round(m: EngineView, history: Seq<(Outcome, u64)>) -> bool
    decreases history.len(),
{
    history.len() == 0 || {
        &&& within_round(m, history.drop_last())
        &&& !(run(m, history.drop_last()).phase is Ready)
    }
}

/// The time that the engine sleeps in the course of the history with a
/// process on its books. Counted are the actions that the history answers.
pub open spec fn time_held(m: EngineView, history: Seq<(Outcome, u64)>) -> int
    decreases history.len(),
{
    if history.len() == 0 {
        0
    } else {
        let before = run(m, history.drop_last());
        time_held(m, history.drop_last()) + if answers(before.phase, history.last().0) {
            hold_time_now(before)
        } else {
            0
        }
    }
}

/// How many outcomes of the history answer the action that is pending when
/// they come.
pub open spec fn answered(m: EngineView, history: Seq<(Outcome, u64)>) -> int
    decreases history.len(),
{
    if history.len() == 0 {
        0
    } else {
        answered(m, history.drop_last()) + if answers(
            run(m, history.drop_last()).phase,
            history.last().0,
        ) {
            1int
        } else {
            0int
        }
    }
}

/// Within one round, whatever is reported, the engine sleeps for at most
/// one period in all while a process is on its books, and takes at most four
/// outcomes that answer its actions.
pub proof fn lemma_round_is_short(m: EngineView, history: Seq<(Outcome, u64)>)
    requires
        inv(m),
        within_round(m, history),
    ensures
        time_held(m, history) + hold_time_ahead(run(m, history)) <= hold_time_ahead(m),
        0 <= time_held(m, history) <= m.period_ms,
        answered(m, history) + steps_ahead(run(m, history).phase) <= steps_ahead(m.phase),
        0 <= answered(m, history) <= 4,
    decreases history.len(),
{
    lemma_run_keeps_inv(m, history);
    if history.len() == 0 {
        lemma_state_read_within_one_period(m, Outcome::Woke, 0);
    } else {
        let earlier = history.drop_last();
        let before = run(m, earlier);
        lemma_round_is_short(m, earlier);
        lemma_run_keeps_inv(m, earlier);
        lemma_state_read_within_one_period(before, history.last().0, history.last().1);
        lemma_state_read_within_one_period(run(m, history), Outcome::Woke, 0);
        lemma_state_read_within_one_period(m, Outcome::Woke, 0);
    }
}

/// A targeted round with a target that stays alive and is not remembered
/// as lost: the target gets a
/// continue signal, runs for the rounded-down share of the period that the
/// limit allows, gets a stop signal, and stands still for the rest of the
/// period. The engine is then ready for the next round with the same target
/// on its books, so that the next period goes the same way.
pub proof fn lemma_targeted_round(
    m: EngineView,
    config: LimiterState,
    pid: i32,
    times: Seq<u64>,
)
    requires
        inv(m),
        m.phase is Ready,
        config.is_active,
        config.mode is Targeted,
        config.target_pid == Some(pid),
        m.lost_target != Some(pid),
        0 < run_millis(m.period_ms, config.limit_percentage) < m.period_ms,
        times.len() == 5,
    ensures
        ({
            let run_ms = run_millis(m.period_ms, config.limit_percentage);
            let m1 = next(m, Outcome::Config { config, stop: false }, times[0]);
            let m2 = next(m1, Outcome::Signaled { delivered: true }, times[1]);
            let m3 = next(m2, Outcome::Woke, times[2]);
            let m4 = next(m3, Outcome::Signaled { delivered: true }, times[3]);
            let m5 = next(m4, Outcome::Woke, times[4]);
            &&& pending(m1) == Action::Signal { pid, kind: SignalKind::Continue }
            &&& pending(m2) == Action::Sleep { millis: run_ms }
            &&& suspended(m2).len() == 0
            &&& activity(m2) is TargetedRunning
            &&& pending(m3) == Action::Signal { pid, kind: SignalKind::Stop }
            &&& pending(m4) == Action::Sleep { millis: (m.period_ms - run_ms) as u64 }
            &&& suspended(m4) == seq![pid]
            &&& activity(m4) is TargetedStopped
            &&& pending(m5) == Action::ReadConfig
            &&& m5.phase is Ready
            &&& m5.held_target == Some(pid)
            &&& inv(m5)
            &&& config.limit_percentage <= 100 ==> run_ms == m.period_ms as int
                * config.limit_percentage as int / 100
        }),
{
    lemma_run_millis_bounds(m.period_ms, config.limit_percentage);
    let m1 = next(m, Outcome::Config { config, stop: false }, times[0]);
    let m2 = next(m1, Outcome::Signaled { delivered: true }, times[1]);
    let m3 = next(m2, Outcome::Woke, times[2]);
    let m4 = next(m3, Outcome::Signaled { delivered: true }, times[3]);
    let m5 = next(m4, Outcome::Woke, times[4]);
    lemma_step_keeps_inv(m, Outcome::Config { config, stop: false }, times[0]);
    lemma_step_keeps_inv(m1, Outcome::Signaled { delivered: true }, times[1]);
    lemma_step_keeps_inv(m2, Outcome::Woke, times[2]);
    lemma_step_keeps_inv(m3, Outcome::Signaled { delivered: true }, times[3]);
    lemma_step_keeps_inv(m4, Outcome::Woke, times[4]);
    assert(m1.phase is AwaitContinue);
    assert(m2.phase is Running);
    assert(m3.phase is AwaitStop);
    assert(m4.phase is Stopped);
    assert(m4.paused.len() == 0);
    assert(suspended(m4) =~= seq![pid]);
    assert(suspended(m2) =~= Seq::<i32>::empty());
}

/// The outcome at place `i` of a run of targeted rounds in which the
/// desired state stays `config` and the target takes every signal.
pub open spec fn steady_outcome(config: LimiterState, i: int) -> Outcome {
    let place = i % 5;
    if place == 0 {
        Outcome::Config { config, stop: false }
    } else if place == 1 || place == 3 {
        Outcome::Signaled { delivered: true }
    } else {
        Outcome::Woke
    }
}

/// The action that answers the outcome at place `i` of such a run: the
/// continue signal, the run phase, the stop signal, the stop phase, and the
/// reading of the desired state, over and over.
pub open spec fn steady_action(period_ms: u64, limit: u32, pid: i32, i: int) -> Action {
    let place = i % 5;
    if place == 0 {
        Action::Signal { pid, kind: SignalKind::Continue }
    } else if place == 1 {
        Action::Sleep { millis: run_millis(period_ms, limit) }
    } else if place == 2 {
        Action::Signal { pid, kind: SignalKind::Stop }
    } else if place == 3 {
        Action::Sleep { millis: stop_millis(period_ms, limit) }
    } else {
        Action::ReadConfig
    }
}

/// Where the engine stands after `k` outcomes of such a run.
pub open spec fn steady_state(m: EngineView, config: LimiterState, pid: i32, k: int) -> bool {
    let place = k % 5;
    &&& inv(m)
    &&& m.held_target == Some(pid)
    &&& m.limit == config.limit_percentage
    &&& m.phase == if place == 0 {
        Phase::Ready
    } else if place == 1 {
        Phase::AwaitContinue
    } else if place == 2 {
        Phase::Running
    } else if place == 3 {
        Phase::AwaitStop
    } else {
        Phase::Stopped
    }
}

/// For as long as the limiter stays switched on with the same target and
/// limit, and the target takes every signal, as one that is not remembered as
/// lost, every period goes the same way:
/// the continue signal, the run phase of the rounded-down share of the period,
/// the stop signal, and the stop phase of the rest of the period, in that order.
pub proof fn lemma_targeted_rounds_repeat(
    m: EngineView,
    config: LimiterState,
    pid: i32,
    history: Seq<(Outcome, u64)>,
)
    requires
        inv(m),
        m.phase is Ready,
        config.is_active,
        config.mode is Targeted,
        config.target_pid == Some(pid),
        m.lost_target != Some(pid),
        0 < run_millis(m.period_ms, config.limit_percentage) < m.period_ms,
        forall|i: int| 0 <= i < history.len() ==> (#[trigger] history[i]).0 == steady_outcome(
            config,
            i,
        ),
    ensures
        forall|k: int|
            0 < k <= history.len() ==> pending(#[trigger] run(m, history.take(k)))
                == steady_action(m.period_ms, config.limit_percentage, pid, k - 1),
        run_millis(m.period_ms, config.limit_percentage) + stop_millis(
            m.period_ms,
            config.limit_percentage,
        ) == m.period_ms,
        config.limit_percentage <= 100 ==> run_millis(m.period_ms, config.limit_percentage)
            == m.period_ms as int * config.limit_percentage as int / 100,
{
    lemma_run_millis_bounds(m.period_ms, config.limit_percentage);
    assert forall|k: int| 0 < k <= history.len() implies pending(
        #[trigger] run(m, history.take(k)),
    ) == steady_action(m.period_ms, config.limit_percentage, pid, k - 1) by {
        lemma_steady_run(m, config, pid, history, k);
    }
}

/// The state after the first `k` outcomes of a run of steady targeted rounds.
proof fn lemma_steady_run(
    m: EngineView,
    config: LimiterState,
    pid: i32,
    history: Seq<(Outcome, u64)>,
    k: int,
)
    requires
        inv(m),
        m.phase is Ready,
        config.is_active,
        config.mode is Targeted,
        config.target_pid == Some(pid),
        m.lost_target != Some(pid),
        0 < run_millis(m.period_ms, config.limit_percentage) < m.period_ms,
        forall|i: int| 0 <= i < history.len() ==> (#[trigger] history[i]).0 == steady_outcome(
            config,
            i,
        ),
        0 <= k <= history.len(),
    ensures
        run(m, history.take(k)).period_ms == m.period_ms,
        k > 0 ==> steady_state(run(m, history.take(k)), config, pid, k),
        k > 0 ==> pending(run(m, history.take(k))) == steady_action(
            m.period_ms,
            config.limit_percentage,
            pid,
            k - 1,
        ),
    decreases k,
{
    lemma_run_millis_bounds(m.period_ms, config.limit_percentage);
    if k > 0 {
        lemma_steady_run(m, config, pid, history, k - 1);
        let so_far = history.take(k);
        assert(so_far.drop_last() =~= history.take(k - 1));
        assert(so_far.last() == history[k - 1]);
        let before = run(m, history.take(k - 1));
        let after = run(m, so_far);
        assert(after == next(before, history[k - 1].0, history[k - 1].1));
        lemma_run_keeps_inv(m, history.take(k - 1));
        lemma_step_keeps_inv(before, history[k - 1].0, history[k - 1].1);
        assert(before.phase is Ready ==> after.phase is AwaitContinue);
    }
}

/// A targeted round at a limit that fills the whole period, 100 percent or
/// more: the target gets a continue signal and runs for the period. No stop
/// signal is sent.
pub proof fn lemma_targeted_round_unthrottled(
    m: EngineView,
    config: LimiterState,
    pid: i32,
    times: Seq<u64>,
)
    requires
        inv(m),
        m.phase is Ready,
        config.is_active,
        config.mode is Targeted,
        config.target_pid == Some(pid),
        m.lost_target != Some(pid),
        config.limit_percentage >= 100,
        m.period_ms > 0,
        times.len() == 3,
    ensures
        ({
            let m1 = next(m, Outcome::Config { config, stop: false }, times[0]);
            let m2 = next(m1, Outcome::Signaled { delivered: true }, times[1]);
            let m3 = next(m2, Outcome::Woke, times[2]);
            &&& pending(m1) == Action::Signal { pid, kind: SignalKind::Continue }
            &&& pending(m2) == Action::Sleep { millis: m.period_ms }
            &&& pending(m3) == Action::ReadConfig
            &&& suspended(m2).len() == 0
            &&& suspended(m3).len() == 0
            &&& m3.pause_count == m.pause_count
        }),
{
    lemma_run_millis_bounds(m.period_ms, config.limit_percentage);
    let m1 = next(m, Outcome::Config { config, stop: false }, times[0]);
    let m2 = next(m1, Outcome::Signaled { delivered: true }, times[1]);
    let m3 = next(m2, Outcome::Woke, times[2]);
    lemma_step_keeps_inv(m, Outcome::Config { config, stop: false }, times[0]);
    lemma_step_keeps_inv(m1, Outcome::Signaled { delivered: true }, times[1]);
    lemma_step_keeps_inv(m2, Outcome::Woke, times[2]);
    assert(m1.phase is AwaitContinue);
    assert(m1.paused.len() == 0);
    assert(m2.phase is Running);
    assert(suspended(m2) =~= Seq::<i32>::empty());
    assert(suspended(m3) =~= Seq::<i32>::empty());
}

/// A targeted round at a limit that leaves no time to run: the target gets
/// a continue signal and the stop signal right after it, and stands still
/// for the period.
pub proof fn lemma_targeted_round_halted(
    m: EngineView,
    config: LimiterState,
    pid: i32,
    times: Seq<u64>,
)
    requires
        inv(m),
        m.phase is Ready,
        config.is_active,
        config.mode is Targeted,
        config.target_pid == Some(pid),
        m.lost_target != Some(pid),
        run_millis(m.period_ms, config.limit_percentage) == 0,
        m.period_ms > 0,
        times.len() == 4,
    ensures
        ({
            let m1 = next(m, Outcome::Config { config, stop: false }, times[0]);
            let m2 = next(m1, Outcome::Signaled { delivered: true }, times[1]);
            let m3 = next(m2, Outcome::Signaled { delivered: true }, times[2]);
            let m4 = next(m3, Outcome::Woke, times[3]);
            &&& pending(m1) == Action::Signal { pid, kind: SignalKind::Continue }
            &&& pending(m2) == Action::Signal { pid, kind: SignalKind::Stop }
            &&& pending(m3) == Action::Sleep { millis: m.period_ms }
            &&& suspended(m3) == seq![pid]
            &&& pending(m4) == Action::ReadConfig
        }),
{
    lemma_run_millis_bounds(m.period_ms, config.limit_percentage);
    let m1 = next(m, Outcome::Config { config, stop: false }, times[0]);
    let m2 = next(m1, Outcome::Signaled { delivered: true }, times[1]);
    let m3 = next(m2, Outcome::Signaled { delivered: true }, times[2]);
    lemma_step_keeps_inv(m, Outcome::Config { config, stop: false }, times[0]);
    lemma_step_keeps_inv(m1, Outcome::Signaled { delivered: true }, times[1]);
    lemma_step_keeps_inv(m2, Outcome::Signaled { delivered: true }, times[2]);
    assert(m1.phase is AwaitContinue);
    assert(m2.phase is AwaitStop);
    assert(m3.phase is Stopped);
    assert(m3.paused.len() == 0);
    assert(suspended(m3) =~= seq![pid]);
}

/// A global round under a load above the limit: the engine asks for the
/// processes and sends a stop signal to the busiest one that is eligible,
/// which is neither the engine itself nor suspended already. Once that
/// process has taken the signal it stands last among the suspended ones. Where
/// no process is eligible, none is signaled. Either way the engine then
/// rests for one period.
pub proof fn lemma_overload_suspends_busiest(
    m: EngineView,
    config: LimiterState,
    usage: u32,
    samples: Vec<ProcessSample>,
    delivered: bool,
    times: Seq<u64>,
)
    requires
        inv(m),
        m.phase is Ready,
        config.is_active,
        config.mode is Global,
        over_limit(usage, config.limit_percentage),
        times.len() == 4,
    ensures
        ({
            let m1 = next(m, Outcome::Config { config, stop: false }, times[0]);
            let m2 = next(m1, Outcome::Load { usage }, times[1]);
            let m3 = next(m2, Outcome::Processes { samples }, times[2]);
            let m4 = next(m3, Outcome::Signaled { delivered }, times[3]);
            let some_eligible = exists|j: int|
                0 <= j < samples@.len() && eligible(#[trigger] samples@[j], m.own_pid, m.paused);
            &&& pending(m1) == Action::SampleLoad
            &&& pending(m2) == Action::ListProcesses
            &&& releases(m1, Outcome::Load { usage }).len() == 0
            &&& m3.paused == m.paused
            &&& !some_eligible ==> pending(m3) == Action::Sleep { millis: m.period_ms }
            &&& some_eligible ==> exists|i: int|
                {
                    &&& is_pick(samples@, m.own_pid, m.paused, i)
                    &&& pending(m3) == Action::Signal {
                        pid: samples@[i].pid,
                        kind: SignalKind::Stop,
                    }
                    &&& samples@[i].pid != m.own_pid
                    &&& !m.paused.contains(samples@[i].pid)
                    &&& m4.paused == if delivered {
                        m.paused.push(samples@[i].pid)
                    } else {
                        m.paused
                    }
                    &&& pending(m4) == Action::Sleep { millis: m.period_ms }
                }
        }),
{
    let m1 = next(m, Outcome::Config { config, stop: false }, times[0]);
    let m2 = next(m1, Outcome::Load { usage }, times[1]);
    let m3 = next(m2, Outcome::Processes { samples }, times[2]);
    let m4 = next(m3, Outcome::Signaled { delivered }, times[3]);
    lemma_thresholds_exclusive(usage, config.limit_percentage, m.hysteresis);
    lemma_candidate(samples@, m.own_pid, m.paused);
    assert(m1.phase is AwaitLoad);
    assert(m2.phase is AwaitProcesses);
    assert(m2.paused == m.paused);
    let some_eligible = exists|j: int|
        0 <= j < samples@.len() && eligible(#[trigger] samples@[j], m.own_pid, m.paused);
    if some_eligible {
        let j = choose|j: int|
            0 <= j < samples@.len() && eligible(#[trigger] samples@[j], m.own_pid, m.paused);
        assert(eligible(samples@[j], m.own_pid, m.paused));
        let i = choose|i: int| is_pick(samples@, m.own_pid, m.paused, i);
        assert(is_pick(samples@, m.own_pid, m.paused, i));
        assert(m3.phase == Phase::AwaitSuspend { pid: samples@[i].pid });
    }
}

/// A global round under a load below the resume threshold: the process
/// that has been suspended longest gets a continue signal and leaves the
/// queue, the others stay in their order, and the engine rests for one
/// period. Under a load between the threshold and the limit nothing changes.
pub proof fn lemma_relief_resumes_oldest(
    m: EngineView,
    config: LimiterState,
    usage: u32,
    times: Seq<u64>,
)
    requires
        inv(m),
        m.phase is Ready,
        config.is_active,
        config.mode is Global,
        !over_limit(usage, config.limit_percentage),
        times.len() == 2,
    ensures
        ({
            let m1 = next(m, Outcome::Config { config, stop: false }, times[0]);
            let m2 = next(m1, Outcome::Load { usage }, times[1]);
            let relief = under_threshold(usage, config.limit_percentage, m.hysteresis)
                && m.paused.len() > 0;
            &&& pending(m1) == Action::SampleLoad
            &&& pending(m2) == Action::Sleep { millis: m.period_ms }
            &&& relief ==> releases(m1, Outcome::Load { usage }) == seq![m.paused[0]] && m2.paused
                == m.paused.drop_first()
            &&& !relief ==> releases(m1, Outcome::Load { usage }).len() == 0 && m2.paused
                == m.paused
        }),
{
    let m1 = next(m, Outcome::Config { config, stop: false }, times[0]);
    assert(m1.phase is AwaitLoad);
    assert(m1.paused == m.paused);
}

/// Processes are resumed in the order in which they were suspended: with
/// `first` suspended before `second`, and nothing else held, two rounds of
/// relief resume `first` and then `second`.
pub proof fn lemma_first_suspended_first_resumed(
    m: EngineView,
    config: LimiterState,
    first: i32,
    second: i32,
    usage: u32,
    times: Seq<u64>,
)
    requires
        inv(m),
        m.phase is Ready,
        m.paused == seq![first, second],
        config.is_active,
        config.mode is Global,
        under_threshold(usage, config.limit_percentage, m.hysteresis),
        times.len() == 6,
    ensures
        ({
            let read = Outcome::Config { config, stop: false };
            let m1 = next(m, read, times[0]);
            let m2 = next(m1, Outcome::Load { usage }, times[1]);
            let m3 = next(m2, Outcome::Woke, times[2]);
            let m4 = next(m3, read, times[3]);
            let m5 = next(m4, Outcome::Load { usage }, times[4]);
            &&& releases(m1, Outcome::Load { usage }) == seq![first]
            &&& m2.paused == seq![second]
            &&& m3.phase is Ready
            &&& releases(m4, Outcome::Load { usage }) == seq![second]
            &&& m5.paused.len() == 0
        }),
{
    lemma_thresholds_exclusive(usage, config.limit_percentage, m.hysteresis);
    let read = Outcome::Config { config, stop: false };
    let m1 = next(m, read, times[0]);
    let m2 = next(m1, Outcome::Load { usage }, times[1]);
    let m3 = next(m2, Outcome::Woke, times[2]);
    let m4 = next(m3, read, times[3]);
    let m5 = next(m4, Outcome::Load { usage }, times[4]);
    lemma_step_keeps_inv(m, read, times[0]);
    assert(m.held_target is None);
    assert(m1.phase is AwaitLoad);
    assert(m1.paused == m.paused);
    assert(m2.paused =~= seq![second]);
    assert(m2.phase is Resting);
    assert(m3.phase is Ready);
    assert(m4.phase is AwaitLoad);
    assert(m4.paused =~= seq![second]);
    assert(m5.paused =~= Seq::<i32>::empty());
}

/// A target that does not take its signal is gone: the engine takes it
/// off its books at once and remembers it as lost, counts nothing as
/// suspended, releases nothing, sends no further signal in that round and
/// sleeps no more of it, but reads the desired state next.
pub proof fn lemma_lost_target_dropped(m: EngineView, now: u64)
    requires
        inv(m),
        m.phase is AwaitContinue || m.phase is AwaitStop,
    ensures
        ({
            let gone = Outcome::Signaled { delivered: false };
            let after = next(m, gone, now);
            &&& m.held_target is Some
            &&& after.lost_target == m.held_target
            &&& after.held_target is None
            &&& held_pids(after).len() == 0
            &&& suspended(after).len() == 0
            &&& activity(after) is Idle
            &&& releases(m, gone).len() == 0
            &&& pending(after) == Action::ReadConfig
            &&& after.pause_count == m.pause_count
            &&& inv(after)
        }),
{
    lemma_step_keeps_inv(m, Outcome::Signaled { delivered: false }, now);
    let after = next(m, Outcome::Signaled { delivered: false }, now);
    assert(m.paused.len() == 0);
    assert(held_pids(after) =~= Seq::<i32>::empty());
    assert(suspended(after) =~= Seq::<i32>::empty());
}

/// What becomes of the memory of a lost target. A target becomes the lost
/// one when it does not take a signal. Reading the desired state keeps the
/// memory where the desired state names the lost target, in whatever mode and
/// switched on or off, and clears it where the desired state names another
/// process or none. Nothing else changes it.
pub proof fn lemma_memory_of_lost_target(m: EngineView, outcome: Outcome, now: u64)
    requires
        inv(m),
    ensures
        ({
            let after = next(m, outcome, now);
            let lost_now = (m.phase is AwaitContinue || m.phase is AwaitStop) && outcome
                == (Outcome::Signaled { delivered: false });
            &&& lost_now ==> after.lost_target == m.held_target
            &&& m.phase is Ready ==> (outcome matches Outcome::Config { config, .. }
                ==> after.lost_target == if config.target_pid == m.lost_target {
                m.lost_target
            } else {
                None
            })
            &&& !lost_now && !(m.phase is Ready && outcome is Config) ==> after.lost_target
                == m.lost_target
            &&& after.held_target is Some ==> after.lost_target is None
        }),
{
    lemma_step_keeps_inv(m, outcome, now);
}

/// Every desired state that the history reads names `pid` as target.
pub open spec fn reads_name(history: Seq<(Outcome, u64)>, pid: i32) -> bool {
    forall|i: int|
        0 <= i < history.len() ==> ((#[trigger] history[i]).0 matches Outcome::Config {
            config,
            ..
        } ==> config.target_pid == Some(pid))
}

/// No desired state that the history reads asks for limiting in global mode.
pub open spec fn reads_without_global(history: Seq<(Outcome, u64)>) -> bool {
    forall|i: int|
        0 <= i < history.len() ==> ((#[trigger] history[i]).0 matches Outcome::Config {
            config,
            stop,
        } ==> stop || !config.is_active || config.mode is Targeted)
}

/// How the engine stands to its lost target after the first `k` outcomes
/// of the history that follows the loss: it remembers the target as lost
/// and has not taken it up again, and no continue signal is pending. The
/// one signal that can be pending is the stop signal of global mode. Where no
/// read asks for global mode, no signal is pending at all, nothing is on the
/// books, the last outcome has released nothing, and a round that has just
/// begun rests for one period.
pub open spec fn left_alone(
    m: EngineView,
    now: u64,
    history: Seq<(Outcome, u64)>,
    k: int,
) -> bool {
    let start = next(m, Outcome::Signaled { delivered: false }, now);
    let s = run(start, history.take(k));
    let before = run(start, history.take(k - 1));
    &&& s.lost_target == m.held_target
    &&& s.held_target is None
    &&& !(pending(s) matches Action::Signal { kind: SignalKind::Continue, .. })
    &&& pending(s) is Signal ==> s.phase is AwaitSuspend && s.mode == Some(LimiterMode::Global)
    &&& reads_without_global(history) ==> {
        &&& !(pending(s) is Signal)
        &&& held_pids(s).len() == 0
        &&& k > 0 ==> releases(before, history[k - 1].0).len() == 0
        &&& k > 0 && before.phase is Ready && history[k - 1].0 is Config && !(s.phase is Exited)
            ==> pending(s) == Action::Sleep { millis: m.period_ms }
    }
}

/// A lost target is left alone. After a target has not taken a signal, and
/// for as long as every desired state that is read still names it, whatever
/// else is reported: the engine remembers it as lost and never takes it up
/// again, so that the status shows no target, and no continue signal is ever
/// pending. The one signal that can still be pending is the stop signal of
/// global mode, to a process that a fresh sample lists as eligible. Where no
/// read asks for global mode, no signal is pending at all, nothing is released
/// and nothing is on the books: a round that still names the lost target rests
/// for one period.
pub proof fn lemma_lost_target_left_alone(
    m: EngineView,
    now: u64,
    history: Seq<(Outcome, u64)>,
)
    requires
        inv(m),
        m.phase is AwaitContinue || m.phase is AwaitStop,
        reads_name(history, m.held_target.unwrap()),
    ensures
        forall|k: int| 0 <= k <= history.len() ==> #[trigger] left_alone(m, now, history, k),
{
    assert forall|k: int| 0 <= k <= history.len() implies #[trigger] left_alone(
        m,
        now,
        history,
        k,
    ) by {
        lemma_left_alone_so_far(m, now, history, k);
        if k > 0 {
            lemma_left_alone_so_far(m, now, history, k - 1);
            assert(history.take(k).drop_last() =~= history.take(k - 1));
            assert(history.take(k).last() == history[k - 1]);
        }
    }
}

/// Where the engine stands `k` outcomes after the loss of its target,
/// while every desired state that it reads still names that target.
proof fn lemma_left_alone_so_far(
    m: EngineView,
    now: u64,
    history: Seq<(Outcome, u64)>,
    k: int,
)
    requires
        inv(m),
        m.phase is AwaitContinue || m.phase is AwaitStop,
        reads_name(history, m.held_target.unwrap()),
        0 <= k <= history.len(),
    ensures
        ({
            let start = next(m, Outcome::Signaled { delivered: false }, now);
            let s = run(start, history.take(k));
            &&& inv(s)
            &&& s.period_ms == m.period_ms
            &&& s.lost_target == m.held_target
            &&& s.held_target is None
            &&& reads_without_global(history) ==> {
                &&& s.paused.len() == 0
                &&& s.phase is Ready || s.phase is Resting || s.phase is Exited
            }
        }),
    decreases k,
{
    let start = next(m, Outcome::Signaled { delivered: false }, now);
    lemma_step_keeps_inv(m, Outcome::Signaled { delivered: false }, now);
    if k == 0 {
        assert(history.take(0) =~= Seq::<(Outcome, u64)>::empty());
        assert(m.paused.len() == 0);
    } else {
        lemma_left_alone_so_far(m, now, history, k - 1);
        assert(history.take(k).drop_last() =~= history.take(k - 1));
        assert(history.take(k).last() == history[k - 1]);
        let before = run(start, history.take(k - 1));
        lemma_step_keeps_inv(before, history[k - 1].0, history[k - 1].1);
    }
}

} // verus!
