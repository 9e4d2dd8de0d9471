//! Facts about whole runs: what any sequence of events can and cannot do.
use crate::context::{fresh_step, on_exit_result, on_stream_done, verdict_of, StepModel, StepVerdict};
use crate::executor::{
    apply_verdict, dispatch, fail_step, finish, fresh_run, next, run_wf, runs_step, step_moved, EffectModel,
    PhaseModel, RunEvent, RunModel,
};
use crate::types::{CommandResult, TaskStatus};
use vstd::prelude::*;

verus! {

/// The run after a sequence of events, with all the effects in order.
pub open spec fn run_events(s: RunModel, es: Seq<RunEvent>) -> (RunModel, Seq<EffectModel>)
    decreases es.len(),
{
    if es.len() == 0 {
        (s, seq![])
    } else {
        let (t, first) = next(s, es[0]);
        let (u, rest) = run_events(t, es.drop_first());
        (u, first + rest)
    }
}

/// How many times the completion is reported among the effects.
pub open spec fn finish_count(effs: Seq<EffectModel>) -> nat
    decreases effs.len(),
{
    if effs.len() == 0 {
        0
    } else {
        finish_count(effs.drop_last()) + if effs.last() is Finish {
            1nat
        } else {
            0nat
        }
    }
}

/// Whether none of the effects starts a process.
pub open spec fn spawns_nothing(effs: Seq<EffectModel>) -> bool {
    forall|i: int| 0 <= i < effs.len() ==> !(#[trigger] effs[i] is Spawn)
}

proof fn lemma_finish_count_concat(a: Seq<EffectModel>, b: Seq<EffectModel>)
    ensures
        finish_count(a + b) == finish_count(a) + finish_count(b),
    decreases b.len(),
{
    if b.len() == 0 {
        assert(a + b =~= a);
    } else {
        assert((a + b).drop_last() =~= a + b.drop_last());
        lemma_finish_count_concat(a, b.drop_last());
    }
}

proof fn lemma_finish_count_small(a: EffectModel, b: EffectModel, c: EffectModel)
    ensures
        finish_count(seq![]) == 0,
        finish_count(seq![a]) == (if a is Finish { 1nat } else { 0nat }),
        finish_count(seq![a, b]) == finish_count(seq![a]) + (if b is Finish { 1nat } else { 0nat }),
        finish_count(seq![a, b, c]) == finish_count(seq![a, b]) + (if c is Finish {
            1nat
        } else {
            0nat
        }),
{
    assert(seq![a].drop_last() =~= Seq::<EffectModel>::empty());
    assert(seq![a, b].drop_last() =~= seq![a]);
    assert(seq![a, b, c].drop_last() =~= seq![a, b]);
}

/// Running the events of `a` and then those of `b` is running `a + b`.
pub proof fn lemma_run_events_concat(s: RunModel, a: Seq<RunEvent>, b: Seq<RunEvent>)
    ensures
        run_events(s, a + b) == ({
            let (t, ea) = run_events(s, a);
            let (u, eb) = run_events(t, b);
            (u, ea + eb)
        }),
    decreases a.len(),
{
    if a.len() == 0 {
        assert(a + b =~= b);
        assert(Seq::<EffectModel>::empty() + run_events(s, b).1 =~= run_events(s, b).1);
    } else {
        assert((a + b).drop_first() =~= a.drop_first() + b);
        assert((a + b)[0] == a[0]);
        let (t, first) = next(s, a[0]);
        lemma_run_events_concat(t, a.drop_first(), b);
        let (t1, ea1) = run_events(t, a.drop_first());
        let (u, eb) = run_events(t1, b);
        assert(first + (ea1 + eb) =~= (first + ea1) + eb);
    }
}

proof fn lemma_no_finish(effs: Seq<EffectModel>)
    requires
        forall|i: int| 0 <= i < effs.len() ==> !(#[trigger] effs[i] is Finish),
    ensures
        finish_count(effs) == 0,
    decreases effs.len(),
{
    if effs.len() > 0 {
        lemma_no_finish(effs.drop_last());
    }
}

proof fn lemma_finish_effects(s: RunModel, success: bool, message: Seq<char>)
    ensures
        finish_count(finish(s, success, message).1) == 1,
        spawns_nothing(finish(s, success, message).1),
{
    let effs = finish(s, success, message).1;
    lemma_finish_count_small(effs[0], effs[1], effs[1]);
    assert(effs =~= seq![effs[0], effs[1]]);
}

proof fn lemma_fail_step_effects(s: RunModel, pre: Seq<EffectModel>, message: Seq<char>)
    ensures
        finish_count(fail_step(s, pre, message).1) == finish_count(pre) + 1,
        spawns_nothing(pre) ==> spawns_nothing(fail_step(s, pre, message).1),
{
    let t = RunModel { statuses: s.statuses.update(s.index as int, TaskStatus::Failed), ..s };
    let st = EffectModel::Status { index: s.index, status: TaskStatus::Failed };
    lemma_finish_effects(t, false, message);
    lemma_finish_count_concat(pre, seq![st]);
    lemma_finish_count_small(st, st, st);
    assert(pre.push(st) =~= pre + seq![st]);
    lemma_finish_count_concat(pre.push(st), finish(t, false, message).1);
}

proof fn lemma_verdict_effects(s: RunModel, v: StepVerdict)
    ensures
        finish_count(apply_verdict(s, v).1) == (if apply_verdict(s, v).0.phase is Finished {
            1nat
        } else {
            0nat
        }),
        spawns_nothing(apply_verdict(s, v).1),
        apply_verdict(s, v).0.phase is Finished <==> !(v is Succeeded),
{
    match v {
        StepVerdict::Cancelled => {
            lemma_finish_effects(s, false, crate::text::cancelled_message());
        },
        StepVerdict::Succeeded => {
            let effs = apply_verdict(s, v).1;
            lemma_finish_count_small(effs[0], effs[1], effs[1]);
            assert(effs =~= seq![effs[0], effs[1]]);
        },
        StepVerdict::Failed { exit_code } => {
            let pre = match exit_code {
                Some(c) => seq![
                    EffectModel::Log { text: crate::text::exit_code_line(c), is_error: true },
                ],
                None => seq![],
            };
            if let Some(c) = exit_code {
                lemma_finish_count_small(pre[0], pre[0], pre[0]);
            }
            lemma_fail_step_effects(s, pre, crate::text::failed_at_message(s.index + 1, s.steps.len()));
        },
    }
}

proof fn lemma_step_moved(s: RunModel, moved: (StepModel, Option<StepVerdict>))
    requires
        run_wf(s),
        s.phase is Running,
        moved.1 is None ==> moved.0.index == s.index && moved.0.total == s.steps.len()
            && !moved.0.finalized,
    ensures
        run_wf(step_moved(s, moved).0),
        step_moved(s, moved).0.steps == s.steps,
        step_moved(s, moved).0.cancelled == s.cancelled,
        finish_count(step_moved(s, moved).1) == (if step_moved(s, moved).0.phase is Finished {
            1nat
        } else {
            0nat
        }),
        spawns_nothing(step_moved(s, moved).1),
{
    match moved.1 {
        Some(v) => lemma_verdict_effects(s, v),
        None => lemma_finish_count_small(EffectModel::DisableCancel, EffectModel::DisableCancel, EffectModel::DisableCancel),
    }
}

proof fn lemma_step_signal(m: StepModel, is_error_stream: bool, result: CommandResult, cancelled: bool)
    requires
        !m.finalized,
    ensures
        on_stream_done(m, is_error_stream, cancelled).1 is None ==> {
            let n = on_stream_done(m, is_error_stream, cancelled).0;
            n.index == m.index && n.total == m.total && !n.finalized
        },
        on_exit_result(m, result, cancelled).1 is None ==> {
            let n = on_exit_result(m, result, cancelled).0;
            n.index == m.index && n.total == m.total && !n.finalized
        },
{
}

/// A run's invariant holds after every event; the steps never change; the
/// cancellation flag, once set, stays set; a finished run ignores every
/// event; and the completion is reported by an event exactly when that
/// event ends the run.
pub proof fn lemma_next(s: RunModel, e: RunEvent)
    requires
        run_wf(s),
    ensures
        run_wf(next(s, e).0),
        next(s, e).0.steps == s.steps,
        s.cancelled ==> next(s, e).0.cancelled,
        s.phase is Finished ==> next(s, e) == (s, Seq::<EffectModel>::empty()),
        finish_count(next(s, e).1) == (if !(s.phase is Finished) && next(s, e).0.phase is Finished {
            1nat
        } else {
            0nat
        }),
{
    let d = EffectModel::DisableCancel;
    lemma_finish_count_small(d, d, d);
    match e {
        RunEvent::Dispatch { preferred, detected } => {
            if s.phase is Ready {
                if s.cancelled {
                    lemma_finish_effects(s, false, crate::text::cancelled_message());
                } else if s.index >= s.steps.len() {
                    lemma_finish_effects(s, true, crate::text::all_done_message());
                } else {
                    let i = s.index;
                    let n = s.steps.len();
                    let step = s.steps[i as int];
                    let opening = seq![
                        EffectModel::Progress { current: i + 1, total: n },
                        EffectModel::Title { text: step.friendly_name@ },
                        EffectModel::Log { text: crate::text::header_line(i + 1, n, step.friendly_name@), is_error: false },
                        EffectModel::Status { index: i, status: TaskStatus::Running },
                    ];
                    let t = RunModel { statuses: s.statuses.update(i as int, TaskStatus::Running), ..s };
                    match crate::resolver::step_resolution(&step, preferred, detected) {
                        Err(err) => {
                            let pre = opening.push(EffectModel::Log {
                                text: crate::text::error_line(Seq::empty(), err.spec_message()),
                                is_error: true,
                            });
                            lemma_no_finish(pre);
                            lemma_fail_step_effects(t, pre, crate::text::prepare_failed_message());
                        },
                        Ok((program, args)) => {
                            lemma_no_finish(opening.push(EffectModel::Spawn { program, args }));
                        },
                    }
                }
            }
        },
        RunEvent::Spawned => {
            let f = EffectModel::ForceTerminate;
            lemma_finish_count_small(f, f, f);
        },
        RunEvent::SpawnFailed { error } => {
            if s.phase is Launching {
                let pre = seq![
                    EffectModel::Log { text: crate::text::error_line(crate::text::spawn_error_prefix(), error), is_error: true },
                ];
                lemma_finish_count_small(pre[0], pre[0], pre[0]);
                lemma_fail_step_effects(s, pre, crate::text::start_failed_message());
            }
        },
        RunEvent::Output { index, line, is_error } => {
            let l = EffectModel::Log { text: crate::text::output_line(line), is_error };
            lemma_finish_count_small(l, l, l);
        },
        RunEvent::ReadFailed { index, error, is_error_stream } => {
            if runs_step(s, index) {
                let m = s.phase->step;
                lemma_step_signal(m, is_error_stream, CommandResult::Success, s.cancelled);
                let mv = on_stream_done(m, is_error_stream, s.cancelled);
                lemma_step_moved(s, mv);
                let log = EffectModel::Log { text: crate::text::error_line(crate::text::read_error_prefix(), error), is_error: true };
                lemma_finish_count_small(log, log, log);
                lemma_finish_count_concat(seq![log], step_moved(s, mv).1);
            }
        },
        RunEvent::StreamDone { index, is_error_stream } => {
            if runs_step(s, index) {
                let m = s.phase->step;
                lemma_step_signal(m, is_error_stream, CommandResult::Success, s.cancelled);
                lemma_step_moved(s, on_stream_done(m, is_error_stream, s.cancelled));
            }
        },
        RunEvent::Exited { index, result } => {
            if runs_step(s, index) {
                let m = s.phase->step;
                lemma_step_signal(m, false, result, s.cancelled);
                lemma_step_moved(s, on_exit_result(m, result, s.cancelled));
            }
        },
        RunEvent::WaitFailed { index, error } => {
            if runs_step(s, index) {
                let m = s.phase->step;
                let r = CommandResult::Failure { exit_code: None };
                lemma_step_signal(m, false, r, s.cancelled);
                let mv = on_exit_result(m, r, s.cancelled);
                lemma_step_moved(s, mv);
                let log = EffectModel::Log { text: crate::text::error_line(crate::text::wait_error_prefix(), error), is_error: true };
                lemma_finish_count_small(log, log, log);
                lemma_finish_count_concat(seq![log], step_moved(s, mv).1);
            }
        },
        RunEvent::Cancel => {
            if !(s.phase is Finished || s.cancelled) {
                let a = EffectModel::Log { text: crate::text::cancel_line(), is_error: true };
                lemma_finish_count_small(a, d, EffectModel::ForceTerminate);
                lemma_finish_count_concat(seq![a, d], seq![EffectModel::ForceTerminate]);
                lemma_finish_count_concat(seq![a, d], seq![]);
                let f = EffectModel::ForceTerminate;
                lemma_finish_count_small(f, f, f);
            }
        },
    }
}

/// Over any sequence of events, a run reports its completion at most once:
/// once if the events end it, not at all if it had already ended, in which
/// case nothing changes and nothing happens.
pub proof fn lemma_completion_reported_once(s: RunModel, es: Seq<RunEvent>)
    requires
        run_wf(s),
    ensures
        run_wf(run_events(s, es).0),
        run_events(s, es).0.steps == s.steps,
        s.cancelled ==> run_events(s, es).0.cancelled,
        s.phase is Finished ==> run_events(s, es) == (s, Seq::<EffectModel>::empty()),
        finish_count(run_events(s, es).1) == (if !(s.phase is Finished) && run_events(
            s,
            es,
        ).0.phase is Finished {
            1nat
        } else {
            0nat
        }),
    decreases es.len(),
{
    if es.len() > 0 {
        let (t, first) = next(s, es[0]);
        lemma_next(s, es[0]);
        lemma_completion_reported_once(t, es.drop_first());
        lemma_finish_count_concat(first, run_events(t, es.drop_first()).1);
        if s.phase is Finished {
            assert(first + Seq::<EffectModel>::empty() =~= Seq::<EffectModel>::empty());
        }
    }
}

/// Whether an event is a signal from the process of step `index`.
pub open spec fn signal_of_step(e: RunEvent, index: nat) -> bool {
    match e {
        RunEvent::Output { index: i, .. } => i == index,
        RunEvent::ReadFailed { index: i, .. } => i == index,
        RunEvent::StreamDone { index: i, .. } => i == index,
        RunEvent::Exited { index: i, .. } => i == index,
        RunEvent::WaitFailed { index: i, .. } => i == index,
        _ => false,
    }
}

/// Once an event has closed the running step, any later signal of that
/// step (one more end of stream, a second exit result) changes nothing and
/// has no effect: the run does not advance twice nor complete twice.
pub proof fn lemma_closed_step_ignores_signals(s: RunModel, closing: RunEvent, late: RunEvent)
    requires
        run_wf(s),
        s.phase is Running,
        !(next(s, closing).0.phase is Running && next(s, closing).0.index == s.index),
        signal_of_step(late, s.index),
    ensures
        next(next(s, closing).0, late) == (next(s, closing).0, Seq::<EffectModel>::empty()),
{
}

/// A step is closed by whichever of its three signals (the end of each
/// output stream and the exit result) comes last, in any order, and only
/// then; every other signal leaves it open.
pub proof fn lemma_step_closes_on_last_signal(
    m: StepModel,
    result: CommandResult,
    cancelled: bool,
    first_done: bool,
    exit_position: nat,
)
    requires
        m == fresh_step(m.index, m.total),
        exit_position < 3,
    ensures
        ({
            // The two stream ends come in the order `first_done`, `!first_done`,
            // and the exit result before them (0), between them (1) or after them (2).
            let e = |m: StepModel| on_exit_result(m, result, cancelled);
            let d1 = |m: StepModel| on_stream_done(m, first_done, cancelled);
            let d2 = |m: StepModel| on_stream_done(m, !first_done, cancelled);
            if exit_position == 0 {
                &&& e(m).1 is None
                &&& d1(e(m).0).1 is None
                &&& d2(d1(e(m).0).0).1 == Some(verdict_of(result, cancelled))
            } else if exit_position == 1 {
                &&& d1(m).1 is None
                &&& e(d1(m).0).1 is None
                &&& d2(e(d1(m).0).0).1 == Some(verdict_of(result, cancelled))
            } else {
                &&& d1(m).1 is None
                &&& d2(d1(m).0).1 is None
                &&& e(d2(d1(m).0).0).1 == Some(verdict_of(result, cancelled))
            }
        }),
{
}

/// The events of step `index` in a run where its process starts, both of its
/// streams end and it exits with `result`.
pub open spec fn step_events(
    index: nat,
    result: CommandResult,
    preferred: Option<Seq<char>>,
    detected: Option<Seq<char>>,
) -> Seq<RunEvent> {
    seq![
        RunEvent::Dispatch { preferred, detected },
        RunEvent::Spawned,
        RunEvent::StreamDone { index, is_error_stream: false },
        RunEvent::StreamDone { index, is_error_stream: true },
        RunEvent::Exited { index, result },
    ]
}

/// The events of the first `count` steps of a run, each of which succeeds.
pub open spec fn success_events(
    count: nat,
    preferred: Option<Seq<char>>,
    detected: Option<Seq<char>>,
) -> Seq<RunEvent>
    decreases count,
{
    if count == 0 {
        seq![]
    } else {
        success_events((count - 1) as nat, preferred, detected) + step_events(
            (count - 1) as nat,
            CommandResult::Success,
            preferred,
            detected,
        )
    }
}

/// Whether every step resolves, with the given helpers.
pub open spec fn all_resolvable(
    steps: Seq<crate::types::CommandStep>,
    preferred: Option<Seq<char>>,
    detected: Option<Seq<char>>,
) -> bool {
    forall|i: int|
        0 <= i < steps.len() ==> (#[trigger] crate::resolver::step_resolution(
            &steps[i],
            preferred,
            detected,
        )) is Ok
}

/// The statuses of `total` steps of which the first `done` succeeded.
pub open spec fn statuses_after(total: nat, done: nat) -> Seq<TaskStatus> {
    Seq::new(
        total,
        |j: int|
            if j < done {
                TaskStatus::Success
            } else {
                TaskStatus::Pending
            },
    )
}

/// The status changes shown, in order, among the effects.
pub open spec fn status_changes(effs: Seq<EffectModel>) -> Seq<(nat, TaskStatus)>
    decreases effs.len(),
{
    if effs.len() == 0 {
        seq![]
    } else {
        let rest = status_changes(effs.drop_last());
        match effs.last() {
            EffectModel::Status { index, status } => rest.push((index, status)),
            _ => rest,
        }
    }
}

/// Each of the first `count` steps shown running, then successful, in order.
pub open spec fn success_trail(count: nat) -> Seq<(nat, TaskStatus)>
    decreases count,
{
    if count == 0 {
        seq![]
    } else {
        success_trail((count - 1) as nat) + seq![
            ((count - 1) as nat, TaskStatus::Running),
            ((count - 1) as nat, TaskStatus::Success),
        ]
    }
}

proof fn lemma_status_changes_concat(a: Seq<EffectModel>, b: Seq<EffectModel>)
    ensures
        status_changes(a + b) == status_changes(a) + status_changes(b),
    decreases b.len(),
{
    if b.len() == 0 {
        assert(a + b =~= a);
        assert(status_changes(a) + seq![] =~= status_changes(a));
    } else {
        assert((a + b).drop_last() =~= a + b.drop_last());
        lemma_status_changes_concat(a, b.drop_last());
        let r = status_changes(b.drop_last());
        match b.last() {
            EffectModel::Status { index, status } => {
                assert(status_changes(a) + r.push((index, status)) =~= (status_changes(a) + r).push(
                    (index, status),
                ));
            },
            _ => {},
        }
    }
}

proof fn lemma_one_effect(x: EffectModel)
    ensures
        finish_count(seq![x]) == (if x is Finish { 1nat } else { 0nat }),
        status_changes(seq![x]) == match x {
            EffectModel::Status { index, status } => seq![(index, status)],
            _ => Seq::<(nat, TaskStatus)>::empty(),
        },
{
    reveal_with_fuel(finish_count, 2);
    reveal_with_fuel(status_changes, 2);
    assert(seq![x].drop_last() =~= Seq::<EffectModel>::empty());
    assert(seq![x].last() == x);
    match x {
        EffectModel::Status { index, status } => {
            assert(Seq::<(nat, TaskStatus)>::empty().push((index, status)) =~= seq![(index, status)]);
        },
        _ => {},
    }
}

/// A run at the start of step `i`, the steps before it done, steps from it
/// on pending.
pub open spec fn at_step(steps: Seq<crate::types::CommandStep>, i: nat) -> RunModel {
    RunModel {
        steps,
        index: i,
        cancelled: false,
        statuses: statuses_after(steps.len(), i),
        phase: PhaseModel::Ready,
    }
}

proof fn lemma_step_succeeds(
    steps: Seq<crate::types::CommandStep>,
    i: nat,
    preferred: Option<Seq<char>>,
    detected: Option<Seq<char>>,
)
    requires
        i < steps.len(),
        crate::resolver::step_resolution(&steps[i as int], preferred, detected) is Ok,
    ensures
        run_events(at_step(steps, i), step_events(i, CommandResult::Success, preferred, detected)).0
            == at_step(steps, i + 1),
        finish_count(
            run_events(at_step(steps, i), step_events(i, CommandResult::Success, preferred, detected)).1,
        ) == 0,
        status_changes(
            run_events(at_step(steps, i), step_events(i, CommandResult::Success, preferred, detected)).1,
        ) == seq![(i, TaskStatus::Running), (i, TaskStatus::Success)],
{
    let s0 = at_step(steps, i);
    let es = step_events(i, CommandResult::Success, preferred, detected);
    let (s1, e1) = next(s0, es[0]);
    let (s2, e2) = next(s1, es[1]);
    let (s3, e3) = next(s2, es[2]);
    let (s4, e4) = next(s3, es[3]);
    let (s5, e5) = next(s4, es[4]);
    assert(s5.statuses =~= statuses_after(steps.len(), i + 1));
    assert(s5 == at_step(steps, i + 1));
    assert(es.drop_first().drop_first().drop_first().drop_first().drop_first() =~= Seq::<RunEvent>::empty());
    reveal_with_fuel(run_events, 6);
    assert(es.drop_first()[0] == es[1]);
    assert(es.drop_first().drop_first()[0] == es[2]);
    assert(es.drop_first().drop_first().drop_first()[0] == es[3]);
    assert(es.drop_first().drop_first().drop_first().drop_first()[0] == es[4]);
    let effs = e1 + (e2 + (e3 + (e4 + (e5 + Seq::<EffectModel>::empty()))));
    assert(run_events(s0, es) == (s5, effs));
    let (_, res) = crate::resolver::step_resolution(&steps[i as int], preferred, detected)->Ok_0
        ;
    assert(e2 =~= Seq::<EffectModel>::empty());
    assert(e3 =~= Seq::<EffectModel>::empty());
    assert(e4 =~= Seq::<EffectModel>::empty());
    assert(effs =~= e1 + e5);
    assert(e1 =~= seq![e1[0], e1[1], e1[2]] + seq![e1[3]] + seq![e1[4]]);
    assert(e5 =~= seq![e5[0]] + seq![e5[1]]);
    lemma_one_effect(e1[0]);
    lemma_one_effect(e1[1]);
    lemma_one_effect(e1[2]);
    lemma_one_effect(e1[3]);
    lemma_one_effect(e1[4]);
    lemma_one_effect(e5[0]);
    lemma_one_effect(e5[1]);
    assert(seq![e1[0], e1[1], e1[2]] =~= seq![e1[0]] + seq![e1[1]] + seq![e1[2]]);
    lemma_finish_count_concat(seq![e1[0]], seq![e1[1]]);
    lemma_finish_count_concat(seq![e1[0]] + seq![e1[1]], seq![e1[2]]);
    lemma_finish_count_concat(seq![e1[0], e1[1], e1[2]], seq![e1[3]]);
    lemma_finish_count_concat(seq![e1[0], e1[1], e1[2]] + seq![e1[3]], seq![e1[4]]);
    lemma_finish_count_concat(seq![e5[0]], seq![e5[1]]);
    lemma_finish_count_concat(e1, e5);
    lemma_status_changes_concat(seq![e1[0]], seq![e1[1]]);
    lemma_status_changes_concat(seq![e1[0]] + seq![e1[1]], seq![e1[2]]);
    lemma_status_changes_concat(seq![e1[0], e1[1], e1[2]], seq![e1[3]]);
    lemma_status_changes_concat(seq![e1[0], e1[1], e1[2]] + seq![e1[3]], seq![e1[4]]);
    lemma_status_changes_concat(seq![e5[0]], seq![e5[1]]);
    lemma_status_changes_concat(e1, e5);
    assert(status_changes(e1) =~= seq![(i, TaskStatus::Running)]);
    assert(status_changes(e5) =~= seq![(i, TaskStatus::Success)]);
    assert(status_changes(e1) + status_changes(e5) =~= seq![(i, TaskStatus::Running), (i, TaskStatus::Success)]);
}

proof fn lemma_steps_succeed(
    steps: Seq<crate::types::CommandStep>,
    count: nat,
    preferred: Option<Seq<char>>,
    detected: Option<Seq<char>>,
)
    requires
        count <= steps.len(),
        all_resolvable(steps, preferred, detected),
    ensures
        run_events(at_step(steps, 0), success_events(count, preferred, detected)).0 == at_step(
            steps,
            count,
        ),
        finish_count(run_events(at_step(steps, 0), success_events(count, preferred, detected)).1)
            == 0,
        status_changes(run_events(at_step(steps, 0), success_events(count, preferred, detected)).1)
            == success_trail(count),
    decreases count,
{
    let s0 = at_step(steps, 0);
    if count == 0 {
        reveal_with_fuel(finish_count, 1);
    } else {
        let k = (count - 1) as nat;
        lemma_steps_succeed(steps, k, preferred, detected);
        let a = success_events(k, preferred, detected);
        let b = step_events(k, CommandResult::Success, preferred, detected);
        lemma_run_events_concat(s0, a, b);
        assert(crate::resolver::step_resolution(&steps[k as int], preferred, detected) is Ok);
        lemma_step_succeeds(steps, k, preferred, detected);
        let ea = run_events(s0, a).1;
        let eb = run_events(at_step(steps, k), b).1;
        lemma_finish_count_concat(ea, eb);
        lemma_status_changes_concat(ea, eb);
    }
}

/// When every step resolves and succeeds, the run ends in success: the
/// completion is reported exactly once, with success, as the last effect;
/// each step is shown running and then successful, one step after the
/// other; and every step ends successful.
pub proof fn lemma_all_steps_succeed(
    steps: Seq<crate::types::CommandStep>,
    preferred: Option<Seq<char>>,
    detected: Option<Seq<char>>,
)
    requires
        all_resolvable(steps, preferred, detected),
    ensures
        ({
            let (u, effs) = run_events(
                fresh_run(steps),
                success_events(steps.len(), preferred, detected) + seq![
                    RunEvent::Dispatch { preferred, detected },
                ],
            );
            &&& u.phase == PhaseModel::Finished { success: true }
            &&& u.statuses == Seq::new(steps.len(), |j: int| TaskStatus::Success)
            &&& finish_count(effs) == 1
            &&& effs.last() == EffectModel::Finish {
                success: true,
                message: crate::text::all_done_message(),
            }
            &&& status_changes(effs) == success_trail(steps.len())
        }),
{
    let n = steps.len();
    let s0 = at_step(steps, 0);
    assert(fresh_run(steps) == s0) by {
        assert(fresh_run(steps).statuses =~= s0.statuses);
    }
    let a = success_events(n, preferred, detected);
    let b = seq![RunEvent::Dispatch { preferred, detected }];
    lemma_steps_succeed(steps, n, preferred, detected);
    lemma_run_events_concat(s0, a, b);
    let sn = at_step(steps, n);
    reveal_with_fuel(run_events, 2);
    assert(b.drop_first() =~= Seq::<RunEvent>::empty());
    let fin = finish(sn, true, crate::text::all_done_message()).1;
    assert(run_events(sn, b).1 == fin + Seq::<EffectModel>::empty());
    assert(fin + Seq::<EffectModel>::empty() =~= fin);
    let ea = run_events(s0, a).1;
    lemma_finish_count_concat(ea, fin);
    lemma_status_changes_concat(ea, fin);
    lemma_finish_effects(sn, true, crate::text::all_done_message());
    assert(fin =~= seq![fin[0]] + seq![fin[1]]);
    lemma_one_effect(fin[0]);
    lemma_one_effect(fin[1]);
    lemma_status_changes_concat(seq![fin[0]], seq![fin[1]]);
    assert(status_changes(ea) + Seq::<(nat, TaskStatus)>::empty() =~= status_changes(ea));
    assert(statuses_after(n, n) =~= Seq::new(n, |j: int| TaskStatus::Success));
}

/// The statuses of `total` steps of which the first `k` succeeded and the next failed.
pub open spec fn statuses_failed_at(total: nat, k: nat) -> Seq<TaskStatus> {
    Seq::new(
        total,
        |j: int|
            if j < k {
                TaskStatus::Success
            } else if j == k {
                TaskStatus::Failed
            } else {
                TaskStatus::Pending
            },
    )
}

proof fn lemma_step_fails(
    steps: Seq<crate::types::CommandStep>,
    i: nat,
    exit_code: Option<i32>,
    preferred: Option<Seq<char>>,
    detected: Option<Seq<char>>,
)
    requires
        i < steps.len(),
        crate::resolver::step_resolution(&steps[i as int], preferred, detected) is Ok,
    ensures
        ({
            let (u, effs) = run_events(
                at_step(steps, i),
                step_events(i, CommandResult::Failure { exit_code }, preferred, detected),
            );
            &&& u == RunModel {
                statuses: statuses_failed_at(steps.len(), i),
                phase: PhaseModel::Finished { success: false },
                ..at_step(steps, i)
            }
            &&& finish_count(effs) == 1
            &&& effs.last() == EffectModel::Finish {
                success: false,
                message: crate::text::failed_at_message(i + 1, steps.len()),
            }
            &&& status_changes(effs) == seq![(i, TaskStatus::Running), (i, TaskStatus::Failed)]
        }),
{
    let s0 = at_step(steps, i);
    let es = step_events(i, CommandResult::Failure { exit_code }, preferred, detected);
    let (s1, e1) = next(s0, es[0]);
    let (s2, e2) = next(s1, es[1]);
    let (s3, e3) = next(s2, es[2]);
    let (s4, e4) = next(s3, es[3]);
    let (s5, e5) = next(s4, es[4]);
    assert(s5.statuses =~= statuses_failed_at(steps.len(), i));
    assert(es.drop_first().drop_first().drop_first().drop_first().drop_first() =~= Seq::<RunEvent>::empty());
    reveal_with_fuel(run_events, 6);
    assert(es.drop_first()[0] == es[1]);
    assert(es.drop_first().drop_first()[0] == es[2]);
    assert(es.drop_first().drop_first().drop_first()[0] == es[3]);
    assert(es.drop_first().drop_first().drop_first().drop_first()[0] == es[4]);
    let effs = e1 + (e2 + (e3 + (e4 + (e5 + Seq::<EffectModel>::empty()))));
    assert(run_events(s0, es) == (s5, effs));
    assert(e2 =~= Seq::<EffectModel>::empty());
    assert(e3 =~= Seq::<EffectModel>::empty());
    assert(e4 =~= Seq::<EffectModel>::empty());
    assert(effs =~= e1 + e5);
    assert(e1 =~= seq![e1[0], e1[1], e1[2]] + seq![e1[3]] + seq![e1[4]]);
    lemma_one_effect(e1[0]);
    lemma_one_effect(e1[1]);
    lemma_one_effect(e1[2]);
    lemma_one_effect(e1[3]);
    lemma_one_effect(e1[4]);
    assert(seq![e1[0], e1[1], e1[2]] =~= seq![e1[0]] + seq![e1[1]] + seq![e1[2]]);
    lemma_finish_count_concat(seq![e1[0]], seq![e1[1]]);
    lemma_finish_count_concat(seq![e1[0]] + seq![e1[1]], seq![e1[2]]);
    lemma_finish_count_concat(seq![e1[0], e1[1], e1[2]], seq![e1[3]]);
    lemma_finish_count_concat(seq![e1[0], e1[1], e1[2]] + seq![e1[3]], seq![e1[4]]);
    lemma_status_changes_concat(seq![e1[0]], seq![e1[1]]);
    lemma_status_changes_concat(seq![e1[0]] + seq![e1[1]], seq![e1[2]]);
    lemma_status_changes_concat(seq![e1[0], e1[1], e1[2]], seq![e1[3]]);
    lemma_status_changes_concat(seq![e1[0], e1[1], e1[2]] + seq![e1[3]], seq![e1[4]]);
    assert(status_changes(e1) =~= seq![(i, TaskStatus::Running)]);
    // The closing effects: an optional exit-code line, the failed status, the outcome.
    let pre = match exit_code {
        Some(c) => seq![EffectModel::Log { text: crate::text::exit_code_line(c), is_error: true }],
        None => Seq::<EffectModel>::empty(),
    };
    let st = EffectModel::Status { index: i, status: TaskStatus::Failed };
    let t = RunModel { statuses: s4.statuses.update(i as int, TaskStatus::Failed), ..s4 };
    let fin = finish(t, false, crate::text::failed_at_message(i + 1, steps.len())).1;
    assert(e5 == pre.push(st) + fin);
    reveal_with_fuel(finish_count, 1);
    reveal_with_fuel(status_changes, 1);
    if exit_code is Some {
        lemma_one_effect(pre[0]);
        assert(pre =~= seq![pre[0]]);
    }
    lemma_one_effect(st);
    assert(pre.push(st) =~= pre + seq![st]);
    lemma_finish_count_concat(pre, seq![st]);
    lemma_status_changes_concat(pre, seq![st]);
    assert(fin =~= seq![fin[0]] + seq![fin[1]]);
    lemma_one_effect(fin[0]);
    lemma_one_effect(fin[1]);
    lemma_finish_count_concat(seq![fin[0]], seq![fin[1]]);
    lemma_status_changes_concat(seq![fin[0]], seq![fin[1]]);
    lemma_finish_count_concat(pre.push(st), fin);
    lemma_status_changes_concat(pre.push(st), fin);
    lemma_finish_count_concat(e1, e5);
    lemma_status_changes_concat(e1, e5);
    assert(status_changes(e5) =~= seq![(i, TaskStatus::Failed)]);
    assert(status_changes(e1) + status_changes(e5) =~= seq![(i, TaskStatus::Running), (i, TaskStatus::Failed)]);
}

/// When the first `k` steps succeed and the one after them, step `k` (from
/// 0), exits with a failure, the run ends in failure at that step: the
/// completion is reported exactly once, without success, as the last effect,
/// with the message naming step `k + 1` of all; the steps before it are
/// shown running then successful, it is shown running then failed; the steps
/// after it stay pending; and whatever events come after, nothing more
/// happens: no later step ever starts.
pub proof fn lemma_failing_step_stops_run(
    steps: Seq<crate::types::CommandStep>,
    k: nat,
    exit_code: Option<i32>,
    preferred: Option<Seq<char>>,
    detected: Option<Seq<char>>,
    later: Seq<RunEvent>,
)
    requires
        k < steps.len(),
        all_resolvable(steps, preferred, detected),
    ensures
        ({
            let (u, effs) = run_events(
                fresh_run(steps),
                success_events(k, preferred, detected) + step_events(
                    k,
                    CommandResult::Failure { exit_code },
                    preferred,
                    detected,
                ),
            );
            &&& u.phase == PhaseModel::Finished { success: false }
            &&& u.statuses == statuses_failed_at(steps.len(), k)
            &&& finish_count(effs) == 1
            &&& effs.last() == EffectModel::Finish {
                success: false,
                message: crate::text::failed_at_message(k + 1, steps.len()),
            }
            &&& status_changes(effs) == success_trail(k) + seq![
                (k, TaskStatus::Running),
                (k, TaskStatus::Failed),
            ]
            &&& run_events(u, later) == (u, Seq::<EffectModel>::empty())
        }),
{
    let s0 = at_step(steps, 0);
    assert(fresh_run(steps) == s0) by {
        assert(fresh_run(steps).statuses =~= s0.statuses);
    }
    let a = success_events(k, preferred, detected);
    let b = step_events(k, CommandResult::Failure { exit_code }, preferred, detected);
    lemma_steps_succeed(steps, k, preferred, detected);
    lemma_run_events_concat(s0, a, b);
    assert(crate::resolver::step_resolution(&steps[k as int], preferred, detected) is Ok);
    lemma_step_fails(steps, k, exit_code, preferred, detected);
    let ea = run_events(s0, a).1;
    let (u, eb) = run_events(at_step(steps, k), b);
    lemma_finish_count_concat(ea, eb);
    lemma_status_changes_concat(ea, eb);
    assert((ea + eb).last() == eb.last());
    assert(run_wf(u));
    lemma_completion_reported_once(u, later);
}

/// Whether a run is cancelled and has no process on the way.
pub open spec fn cancelled_and_idle_or_running(s: RunModel) -> bool {
    &&& run_wf(s)
    &&& s.cancelled
    &&& !(s.phase is Launching)
    &&& s.phase != PhaseModel::Finished { success: true }
}

proof fn lemma_cancelled_next(s: RunModel, e: RunEvent)
    requires
        cancelled_and_idle_or_running(s),
    ensures
        cancelled_and_idle_or_running(next(s, e).0),
        spawns_nothing(next(s, e).1),
        next(s, e).0.index == s.index,
        next(s, e).0.statuses == s.statuses,
{
    lemma_next(s, e);
    match e {
        RunEvent::Dispatch { preferred, detected } => {
            if s.phase is Ready {
                lemma_finish_effects(s, false, crate::text::cancelled_message());
            }
        },
        RunEvent::ReadFailed { index, error, is_error_stream } => {
            if runs_step(s, index) {
                let mv = on_stream_done(s.phase->step, is_error_stream, s.cancelled);
                if let Some(v) = mv.1 {
                    lemma_finish_effects(s, false, crate::text::cancelled_message());
                }
            }
        },
        RunEvent::StreamDone { index, is_error_stream } => {
            if runs_step(s, index) {
                let mv = on_stream_done(s.phase->step, is_error_stream, s.cancelled);
                if let Some(v) = mv.1 {
                    lemma_finish_effects(s, false, crate::text::cancelled_message());
                }
            }
        },
        RunEvent::Exited { index, result } => {
            if runs_step(s, index) {
                let mv = on_exit_result(s.phase->step, result, s.cancelled);
                if let Some(v) = mv.1 {
                    lemma_finish_effects(s, false, crate::text::cancelled_message());
                }
            }
        },
        RunEvent::WaitFailed { index, error } => {
            if runs_step(s, index) {
                let mv = on_exit_result(
                    s.phase->step,
                    CommandResult::Failure { exit_code: None },
                    s.cancelled,
                );
                if let Some(v) = mv.1 {
                    lemma_finish_effects(s, false, crate::text::cancelled_message());
                }
            }
        },
        _ => {},
    }
}

/// Once a run is cancelled, while no process is on the way, no event starts
/// a process, moves the run to another step or changes a status, and the run
/// never ends in success.
pub proof fn lemma_cancelled_run_starts_nothing(s: RunModel, es: Seq<RunEvent>)
    requires
        cancelled_and_idle_or_running(s),
    ensures
        cancelled_and_idle_or_running(run_events(s, es).0),
        spawns_nothing(run_events(s, es).1),
        run_events(s, es).0.index == s.index,
        run_events(s, es).0.statuses == s.statuses,
    decreases es.len(),
{
    if es.len() > 0 {
        let (t, first) = next(s, es[0]);
        lemma_cancelled_next(s, es[0]);
        lemma_cancelled_run_starts_nothing(t, es.drop_first());
        let rest = run_events(t, es.drop_first()).1;
        assert forall|i: int| 0 <= i < (first + rest).len() implies !(#[trigger] (first + rest)[i] is Spawn) by {
            if i < first.len() {
                assert((first + rest)[i] == first[i]);
            } else {
                assert((first + rest)[i] == rest[i - first.len()]);
            }
        }
    }
}

/// A cancel request before the first step starts: whatever events follow,
/// no process starts, every step stays pending, and the completion is
/// reported at most once and never as a success; the next dispatch ends the
/// run as cancelled, reporting the completion once.
pub proof fn lemma_cancel_before_start(
    steps: Seq<crate::types::CommandStep>,
    later: Seq<RunEvent>,
    preferred: Option<Seq<char>>,
    detected: Option<Seq<char>>,
)
    ensures
        ({
            let (u, effs) = run_events(fresh_run(steps), seq![RunEvent::Cancel] + later);
            &&& spawns_nothing(effs)
            &&& u.statuses == fresh_run(steps).statuses
            &&& finish_count(effs) <= 1
            &&& u.phase != PhaseModel::Finished { success: true }
        }),
        ({
            let (u, effs) = run_events(
                fresh_run(steps),
                seq![RunEvent::Cancel, RunEvent::Dispatch { preferred, detected }],
            );
            &&& u.phase == PhaseModel::Finished { success: false }
            &&& finish_count(effs) == 1
            &&& effs.last() == EffectModel::Finish {
                success: false,
                message: crate::text::cancelled_message(),
            }
        }),
{
    let s0 = fresh_run(steps);
    let c = seq![RunEvent::Cancel];
    lemma_run_events_concat(s0, c, later);
    reveal_with_fuel(run_events, 3);
    assert(c.drop_first() =~= Seq::<RunEvent>::empty());
    let (s1, e1) = next(s0, RunEvent::Cancel);
    lemma_next(s0, RunEvent::Cancel);
    assert(run_events(s0, c) == (s1, e1 + Seq::<EffectModel>::empty()));
    assert(e1 + Seq::<EffectModel>::empty() =~= e1);
    assert(e1 =~= seq![e1[0], e1[1]]);
    lemma_cancelled_run_starts_nothing(s1, later);
    lemma_completion_reported_once(s1, later);
    lemma_completion_reported_once(s0, c + later);
    let rest = run_events(s1, later).1;
    assert forall|i: int| 0 <= i < (e1 + rest).len() implies !(#[trigger] (e1 + rest)[i] is Spawn) by {
        if i >= e1.len() {
            assert((e1 + rest)[i] == rest[i - e1.len()]);
        }
    }
    let d = RunEvent::Dispatch { preferred, detected };
    let two = seq![RunEvent::Cancel, d];
    assert(two.drop_first() =~= seq![d]);
    assert(two.drop_first().drop_first() =~= Seq::<RunEvent>::empty());
    let (s2, e2) = next(s1, d);
    lemma_finish_effects(s1, false, crate::text::cancelled_message());
    lemma_completion_reported_once(s0, two);
    assert(run_events(s0, two).1 == e1 + (e2 + Seq::<EffectModel>::empty()));
    assert(e1 + (e2 + Seq::<EffectModel>::empty()) =~= e1 + e2);
}

/// A cancel request while step `s.index` runs: its process is asked to
/// terminate; whatever events follow, no process starts, the run stays at
/// that step with every status as it was, and it never ends in success.
pub proof fn lemma_cancel_while_running(s: RunModel, later: Seq<RunEvent>)
    requires
        run_wf(s),
        s.phase is Running,
        !s.cancelled,
    ensures
        next(s, RunEvent::Cancel).1.contains(EffectModel::ForceTerminate),
        ({
            let (u, effs) = run_events(s, seq![RunEvent::Cancel] + later);
            &&& spawns_nothing(effs)
            &&& u.index == s.index
            &&& u.statuses == s.statuses
            &&& u.phase != PhaseModel::Finished { success: true }
        }),
{
    let c = seq![RunEvent::Cancel];
    let (s1, e1) = next(s, RunEvent::Cancel);
    assert(e1[2] == EffectModel::ForceTerminate);
    lemma_next(s, RunEvent::Cancel);
    lemma_run_events_concat(s, c, later);
    reveal_with_fuel(run_events, 2);
    assert(c.drop_first() =~= Seq::<RunEvent>::empty());
    assert(run_events(s, c) == (s1, e1 + Seq::<EffectModel>::empty()));
    assert(e1 + Seq::<EffectModel>::empty() =~= e1);
    lemma_cancelled_run_starts_nothing(s1, later);
    let rest = run_events(s1, later).1;
    assert forall|i: int| 0 <= i < (e1 + rest).len() implies !(#[trigger] (e1 + rest)[i] is Spawn) by {
        if i >= e1.len() {
            assert((e1 + rest)[i] == rest[i - e1.len()]);
        }
    }
}

/// A cancelled run whose step waits for all three of its signals: once both
/// streams have ended and the exit result has come, whatever that result,
/// the run has ended as cancelled, reporting the completion once, last.
pub proof fn lemma_cancelled_step_settles(s: RunModel, result: CommandResult)
    requires
        run_wf(s),
        s.phase is Running,
        s.cancelled,
        !s.phase->step.stdout_done,
        !s.phase->step.stderr_done,
        s.phase->step.exit_result is None,
    ensures
        ({
            let (u, effs) = run_events(
                s,
                seq![
                    RunEvent::StreamDone { index: s.index, is_error_stream: false },
                    RunEvent::StreamDone { index: s.index, is_error_stream: true },
                    RunEvent::Exited { index: s.index, result },
                ],
            );
            &&& u.phase == PhaseModel::Finished { success: false }
            &&& finish_count(effs) == 1
            &&& effs.last() == EffectModel::Finish {
                success: false,
                message: crate::text::cancelled_message(),
            }
        }),
{
    let k = s.index;
    let es = seq![
        RunEvent::StreamDone { index: k, is_error_stream: false },
        RunEvent::StreamDone { index: k, is_error_stream: true },
        RunEvent::Exited { index: k, result },
    ];
    reveal_with_fuel(run_events, 4);
    let (s2, e2) = next(s, es[0]);
    let (s3, e3) = next(s2, es[1]);
    let (s4, e4) = next(s3, es[2]);
    assert(es.drop_first()[0] == es[1]);
    assert(es.drop_first().drop_first()[0] == es[2]);
    assert(es.drop_first().drop_first().drop_first() =~= Seq::<RunEvent>::empty());
    assert(e2 =~= Seq::<EffectModel>::empty());
    assert(e3 =~= Seq::<EffectModel>::empty());
    assert(s4.phase == PhaseModel::Finished { success: false });
    lemma_completion_reported_once(s, es);
    let effs = e2 + (e3 + (e4 + Seq::<EffectModel>::empty()));
    assert(run_events(s, es) == (s4, effs));
    assert(effs =~= e4);
}

/// An AUR step resolves only with a helper: with none configured and none
/// detected it fails with `HelperNotFound`, and its dispatch starts no
/// process, marks it failed and ends the run, reporting the completion once.
pub proof fn lemma_aur_step_needs_helper(s: RunModel)
    requires
        run_wf(s),
        s.phase is Ready,
        !s.cancelled,
        s.index < s.steps.len(),
        s.steps[s.index as int].command_type == crate::types::CommandType::Aur,
    ensures
        crate::resolver::step_resolution(&s.steps[s.index as int], None, None) == Err::<
            (Seq<char>, Seq<Seq<char>>),
            crate::resolver::ResolveError,
        >(crate::resolver::ResolveError::HelperNotFound),
        ({
            let (u, effs) = next(s, RunEvent::Dispatch { preferred: None, detected: None });
            &&& spawns_nothing(effs)
            &&& u.phase == PhaseModel::Finished { success: false }
            &&& u.statuses[s.index as int] == TaskStatus::Failed
            &&& finish_count(effs) == 1
        }),
{
    let e = RunEvent::Dispatch { preferred: None, detected: None };
    lemma_next(s, e);
    let i = s.index;
    let n = s.steps.len();
    let step = s.steps[i as int];
    let opening = seq![
        EffectModel::Progress { current: i + 1, total: n },
        EffectModel::Title { text: step.friendly_name@ },
        EffectModel::Log { text: crate::text::header_line(i + 1, n, step.friendly_name@), is_error: false },
        EffectModel::Status { index: i, status: TaskStatus::Running },
    ];
    let t = RunModel { statuses: s.statuses.update(i as int, TaskStatus::Running), ..s };
    let pre = opening.push(EffectModel::Log {
        text: crate::text::error_line(Seq::empty(), crate::resolver::ResolveError::HelperNotFound.spec_message()),
        is_error: true,
    });
    lemma_fail_step_effects(t, pre, crate::text::prepare_failed_message());
}

} // verus!
