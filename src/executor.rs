//! The run of a whole sequence of steps, one at a time, as a state machine.
//!
//! Every call takes one event (a step to dispatch, a process that started,
//! a line of output, a stream that ended, an exit status, a cancel request)
//! and returns the effects that the caller carries out in order: progress,
//! title, log lines, step statuses, a process to spawn or to terminate, and
//! at most once per run the completion.
use crate::context::{
    fresh_step, on_exit_result, on_stream_done, RunningCommandContext, StepModel, StepVerdict,
};
use crate::resolver::{opt_str_view, resolve_command, step_resolution};
use crate::text::{
    all_done_message, cancel_line, cancelled_message, error_line, error_text, exit_code_line,
    exit_code_text, failed_at_message, failed_at_text, final_line, final_text, header_line,
    header_text, output_line, output_text, prepare_failed_message, read_error_prefix,
    spawn_error_prefix, start_failed_message, step_done_line, wait_error_prefix,
};
use crate::types::{strings_view, CommandResult, CommandStep, TaskStatus};
use vstd::prelude::*;
use vstd::string::*;

verus! {

/// Something the caller of the state machine is to carry out.
#[derive(Debug)]
pub enum Effect {
    /// Show step `current` (from 1) of `total`.
    Progress { current: usize, total: usize },
    /// Show this title.
    Title { text: String },
    /// Append this text to the log, as an error line when `is_error`.
    Log { text: String, is_error: bool },
    /// Show this status for the step at `index`.
    Status { index: usize, status: TaskStatus },
    /// Start this program with these arguments, capturing both output streams.
    Spawn { program: String, args: Vec<String> },
    /// Ask the running process to terminate.
    ForceTerminate,
    /// Stop offering cancellation.
    DisableCancel,
    /// The run is over: show the outcome and report it to whoever started it.
    Finish { success: bool, message: String },
}

/// The mathematical value of an effect.
pub ghost enum EffectModel {
    Progress { current: nat, total: nat },
    Title { text: Seq<char> },
    Log { text: Seq<char>, is_error: bool },
    Status { index: nat, status: TaskStatus },
    Spawn { program: Seq<char>, args: Seq<Seq<char>> },
    ForceTerminate,
    DisableCancel,
    Finish { success: bool, message: Seq<char> },
}

impl View for Effect {
    type V = EffectModel;

    open spec fn view(&self) -> EffectModel {
        match self {
            Effect::Progress { current, total } => EffectModel::Progress {
                current: *current as nat,
                total: *total as nat,
            },
            Effect::Title { text } => EffectModel::Title { text: text@ },
            Effect::Log { text, is_error } => EffectModel::Log { text: text@, is_error: *is_error },
            Effect::Status { index, status } => EffectModel::Status {
                index: *index as nat,
                status: *status,
            },
            Effect::Spawn { program, args } => EffectModel::Spawn {
                program: program@,
                args: strings_view(args@),
            },
            Effect::ForceTerminate => EffectModel::ForceTerminate,
            Effect::DisableCancel => EffectModel::DisableCancel,
            Effect::Finish { success, message } => EffectModel::Finish {
                success: *success,
                message: message@,
            },
        }
    }
}

/// The mathematical values of a list of effects.
pub open spec fn effects_view(v: Seq<Effect>) -> Seq<EffectModel> {
    v.map_values(|e: Effect| e@)
}

/// Where a run stands.
pub ghost enum PhaseModel {
    /// The step at the current index is to be dispatched next.
    Ready,
    /// The current step's process has been asked for and not yet reported.
    Launching,
    /// The current step's process runs.
    Running { step: StepModel },
    /// The run is over.
    Finished { success: bool },
}

/// What a run is made of.
pub ghost struct RunModel {
    pub steps: Seq<CommandStep>,
    pub index: nat,
    pub cancelled: bool,
    pub statuses: Seq<TaskStatus>,
    pub phase: PhaseModel,
}

/// One event that a run reacts to.
pub ghost enum RunEvent {
    /// Dispatch the current step, with the configured and the detected helper.
    Dispatch { preferred: Option<Seq<char>>, detected: Option<Seq<char>> },
    /// The requested process started.
    Spawned,
    /// The requested process could not be started.
    SpawnFailed { error: Seq<char> },
    /// Step `index` wrote a line.
    Output { index: nat, line: Seq<char>, is_error: bool },
    /// Reading an output stream of step `index` failed; the stream is over.
    ReadFailed { index: nat, error: Seq<char>, is_error_stream: bool },
    /// An output stream of step `index` ended.
    StreamDone { index: nat, is_error_stream: bool },
    /// The process of step `index` exited.
    Exited { index: nat, result: CommandResult },
    /// The exit status of step `index` could not be had.
    WaitFailed { index: nat, error: Seq<char> },
    /// The user asked to cancel.
    Cancel,
}

/// A run that has not started.
pub open spec fn fresh_run(steps: Seq<CommandStep>) -> RunModel {
    RunModel {
        steps,
        index: 0,
        cancelled: false,
        statuses: Seq::new(steps.len(), |i: int| TaskStatus::Pending),
        phase: PhaseModel::Ready,
    }
}

/// The run ends with the given outcome.
pub open spec fn finish(s: RunModel, success: bool, message: Seq<char>) -> (RunModel, Seq<
    EffectModel,
>) {
    (
        RunModel { phase: PhaseModel::Finished { success }, ..s },
        seq![
            EffectModel::Log { text: final_line(success, message), is_error: !success },
            EffectModel::Finish { success, message },
        ],
    )
}

/// The current step is marked failed and the run ends with the given message.
pub open spec fn fail_step(s: RunModel, pre: Seq<EffectModel>, message: Seq<char>) -> (
    RunModel,
    Seq<EffectModel>,
) {
    let t = RunModel { statuses: s.statuses.update(s.index as int, TaskStatus::Failed), ..s };
    let (u, fin) = finish(t, false, message);
    (u, pre.push(EffectModel::Status { index: s.index, status: TaskStatus::Failed }) + fin)
}

/// The run after the current step closed with a verdict.
pub open spec fn apply_verdict(s: RunModel, v: StepVerdict) -> (RunModel, Seq<EffectModel>) {
    match v {
        StepVerdict::Cancelled => finish(s, false, cancelled_message()),
        StepVerdict::Succeeded => (
            RunModel {
                index: s.index + 1,
                statuses: s.statuses.update(s.index as int, TaskStatus::Success),
                phase: PhaseModel::Ready,
                ..s
            },
            seq![
                EffectModel::Status { index: s.index, status: TaskStatus::Success },
                EffectModel::Log { text: step_done_line(), is_error: false },
            ],
        ),
        StepVerdict::Failed { exit_code } => fail_step(
            s,
            match exit_code {
                Some(c) => seq![EffectModel::Log { text: exit_code_line(c), is_error: true }],
                None => seq![],
            },
            failed_at_message(s.index + 1, s.steps.len()),
        ),
    }
}

/// The run after its running step moved to `m`, with the verdict if it closed.
pub open spec fn step_moved(s: RunModel, moved: (StepModel, Option<StepVerdict>)) -> (
    RunModel,
    Seq<EffectModel>,
) {
    match moved.1 {
        Some(v) => apply_verdict(s, v),
        None => (RunModel { phase: PhaseModel::Running { step: moved.0 }, ..s }, seq![]),
    }
}

/// Whether step `index` is the one whose process runs.
pub open spec fn runs_step(s: RunModel, index: nat) -> bool {
    s.phase is Running && s.index == index
}

/// The run after the dispatch of its current step.
pub open spec fn dispatch(s: RunModel, preferred: Option<Seq<char>>, detected: Option<Seq<char>>) -> (
    RunModel,
    Seq<EffectModel>,
) {
    if s.cancelled {
        finish(s, false, cancelled_message())
    } else if s.index >= s.steps.len() {
        finish(s, true, all_done_message())
    } else {
        let i = s.index;
        let n = s.steps.len();
        let step = s.steps[i as int];
        let opening = seq![
            EffectModel::Progress { current: i + 1, total: n },
            EffectModel::Title { text: step.friendly_name@ },
            EffectModel::Log { text: header_line(i + 1, n, step.friendly_name@), is_error: false },
            EffectModel::Status { index: i, status: TaskStatus::Running },
        ];
        let t = RunModel { statuses: s.statuses.update(i as int, TaskStatus::Running), ..s };
        match step_resolution(&step, preferred, detected) {
            Err(e) => fail_step(
                t,
                opening.push(
                    EffectModel::Log { text: error_line(Seq::empty(), e.spec_message()), is_error: true },
                ),
                prepare_failed_message(),
            ),
            Ok((program, args)) => (
                RunModel { phase: PhaseModel::Launching, ..t },
                opening.push(EffectModel::Spawn { program, args }),
            ),
        }
    }
}

/// The run after one event.
pub open spec fn next(s: RunModel, e: RunEvent) -> (RunModel, Seq<EffectModel>) {
    match e {
        RunEvent::Dispatch { preferred, detected } => if s.phase is Ready {
            dispatch(s, preferred, detected)
        } else {
            (s, seq![])
        },
        RunEvent::Spawned => if s.phase is Launching {
            (
                RunModel {
                    phase: PhaseModel::Running { step: fresh_step(s.index, s.steps.len()) },
                    ..s
                },
                if s.cancelled {
                    seq![EffectModel::ForceTerminate]
                } else {
                    seq![]
                },
            )
        } else {
            (s, seq![])
        },
        RunEvent::SpawnFailed { error } => if s.phase is Launching {
            fail_step(
                s,
                seq![
                    EffectModel::Log { text: error_line(spawn_error_prefix(), error), is_error: true },
                ],
                start_failed_message(),
            )
        } else {
            (s, seq![])
        },
        RunEvent::Output { index, line, is_error } => if runs_step(s, index) {
            (s, seq![EffectModel::Log { text: output_line(line), is_error }])
        } else {
            (s, seq![])
        },
        RunEvent::ReadFailed { index, error, is_error_stream } => if runs_step(s, index) {
            let (u, effs) = step_moved(
                s,
                on_stream_done(s.phase->step, is_error_stream, s.cancelled),
            );
            (
                u,
                seq![
                    EffectModel::Log { text: error_line(read_error_prefix(), error), is_error: true },
                ] + effs,
            )
        } else {
            (s, seq![])
        },
        RunEvent::StreamDone { index, is_error_stream } => if runs_step(s, index) {
            step_moved(s, on_stream_done(s.phase->step, is_error_stream, s.cancelled))
        } else {
            (s, seq![])
        },
        RunEvent::Exited { index, result } => if runs_step(s, index) {
            step_moved(s, on_exit_result(s.phase->step, result, s.cancelled))
        } else {
            (s, seq![])
        },
        RunEvent::WaitFailed { index, error } => if runs_step(s, index) {
            let (u, effs) = step_moved(
                s,
                on_exit_result(
                    s.phase->step,
                    CommandResult::Failure { exit_code: None },
                    s.cancelled,
                ),
            );
            (
                u,
                seq![
                    EffectModel::Log { text: error_line(wait_error_prefix(), error), is_error: true },
                ] + effs,
            )
        } else {
            (s, seq![])
        },
        RunEvent::Cancel => if s.phase is Finished || s.cancelled {
            (s, seq![])
        } else {
            (
                RunModel { cancelled: true, ..s },
                seq![
                    EffectModel::Log { text: cancel_line(), is_error: true },
                    EffectModel::DisableCancel,
                ] + if s.phase is Running {
                    seq![EffectModel::ForceTerminate]
                } else {
                    seq![]
                },
            )
        },
    }
}

/// The invariant of a run.
pub open spec fn run_wf(s: RunModel) -> bool {
    &&& s.statuses.len() == s.steps.len()
    &&& s.index <= s.steps.len()
    &&& (s.phase is Launching || s.phase is Running) ==> s.index < s.steps.len()
    &&& s.phase is Running ==> {
        let m = s.phase->step;
        &&& m.index == s.index
        &&& m.total == s.steps.len()
        &&& !m.finalized
    }
}

enum Phase {
    Ready,
    Launching,
    Running,
    Finished { success: bool },
}

/// A run of a sequence of steps.
pub struct CommandRun {
    commands: Vec<CommandStep>,
    index: usize,
    cancelled: bool,
    statuses: Vec<TaskStatus>,
    phase: Phase,
    step: RunningCommandContext,
}

impl View for CommandRun {
    type V = RunModel;

    closed spec fn view(&self) -> RunModel {
        RunModel {
            steps: self.commands@,
            index: self.index as nat,
            cancelled: self.cancelled,
            statuses: self.statuses@,
            phase: match self.phase {
                Phase::Ready => PhaseModel::Ready,
                Phase::Launching => PhaseModel::Launching,
                Phase::Running => PhaseModel::Running { step: self.step@ },
                Phase::Finished { success } => PhaseModel::Finished { success },
            },
        }
    }
}

/// Appends one effect.
fn emit(effects: &mut Vec<Effect>, e: Effect)
    ensures
        effects_view(final(effects)@) == effects_view(old(effects)@).push(e@),
{
    effects.push(e);
    assert(effects_view(effects@) =~= effects_view(old(effects)@).push(e@));
}

impl CommandRun {
    /// The invariant of a run.
    pub closed spec fn wf(&self) -> bool {
        run_wf(self@)
    }

    /// A run of the given steps, none started, every status pending.
    pub fn new(commands: Vec<CommandStep>) -> (r: Self)
        ensures
            r.wf(),
            r@ == fresh_run(commands@),
    {
        let mut statuses: Vec<TaskStatus> = Vec::new();
        let mut i: usize = 0;
        while i < commands.len()
            invariant
                i <= commands@.len(),
                statuses@ == Seq::new(i as nat, |j: int| TaskStatus::Pending),
            decreases commands@.len() - i,
        {
            statuses.push(TaskStatus::Pending);
            assert(statuses@ =~= Seq::new((i + 1) as nat, |j: int| TaskStatus::Pending));
            i = i + 1;
        }
        let r = CommandRun {
            commands,
            index: 0,
            cancelled: false,
            statuses,
            phase: Phase::Ready,
            step: RunningCommandContext::new(0, 1),
        };
        assert(r@.statuses =~= fresh_run(commands@).statuses);
        r
    }

    fn do_finish(&mut self, effects: &mut Vec<Effect>, success: bool, message: String)
        ensures
            final(self)@ == finish(old(self)@, success, message@).0,
            effects_view(final(effects)@) == effects_view(old(effects)@) + finish(
                old(self)@,
                success,
                message@,
            ).1,
    {
        emit(effects, Effect::Log { text: final_text(success, message.as_str()), is_error: !success });
        emit(effects, Effect::Finish { success, message });
        self.phase = Phase::Finished { success };
        assert(effects_view(effects@) =~= effects_view(old(effects)@) + finish(
            old(self)@,
            success,
            message@,
        ).1);
    }

    fn do_fail_step(&mut self, effects: &mut Vec<Effect>, message: String)
        requires
            old(self)@.statuses.len() == old(self)@.steps.len(),
            old(self)@.index < old(self)@.steps.len(),
        ensures
            final(self)@ == fail_step(old(self)@, effects_view(old(effects)@), message@).0,
            effects_view(final(effects)@) == fail_step(
                old(self)@,
                effects_view(old(effects)@),
                message@,
            ).1,
    {
        let i = self.index;
        self.statuses.set(i, TaskStatus::Failed);
        emit(effects, Effect::Status { index: i, status: TaskStatus::Failed });
        self.do_finish(effects, false, message);
    }

    fn do_apply_verdict(&mut self, effects: &mut Vec<Effect>, v: StepVerdict)
        requires
            old(self)@.statuses.len() == old(self)@.steps.len(),
            old(self)@.index < old(self)@.steps.len(),
        ensures
            final(self)@ == apply_verdict(old(self)@, v).0,
            effects_view(final(effects)@) == effects_view(old(effects)@) + apply_verdict(
                old(self)@,
                v,
            ).1,
    {
        let i = self.index;
        let n = self.commands.len();
        match v {
            StepVerdict::Cancelled => {
                self.do_finish(effects, false, String::from_str("Operation cancelled"));
            },
            StepVerdict::Succeeded => {
                self.statuses.set(i, TaskStatus::Success);
                emit(effects, Effect::Status { index: i, status: TaskStatus::Success });
                emit(
                    effects,
                    Effect::Log {
                        text: String::from_str("\u{2713} Step completed successfully\n"),
                        is_error: false,
                    },
                );
                self.index = i + 1;
                self.phase = Phase::Ready;
                assert(effects_view(effects@) =~= effects_view(old(effects)@) + apply_verdict(
                    old(self)@,
                    v,
                ).1);
            },
            StepVerdict::Failed { exit_code } => {
                let ghost start = effects_view(effects@);
                match exit_code {
                    Some(c) => {
                        emit(effects, Effect::Log { text: exit_code_text(c), is_error: true });
                    },
                    None => {},
                }
                let msg = failed_at_text(i + 1, n);
                self.do_fail_step(effects, msg);
                assert(effects_view(effects@) =~= start + apply_verdict(old(self)@, v).1);
            },
        }
    }

    fn runs(&self, index: usize) -> (r: bool)
        ensures
            r == runs_step(self@, index as nat),
    {
        match self.phase {
            Phase::Running => self.index == index,
            _ => false,
        }
    }

    fn close_with(&mut self, effects: &mut Vec<Effect>, verdict: Option<StepVerdict>)
        requires
            old(self)@.statuses.len() == old(self)@.steps.len(),
            old(self)@.index < old(self)@.steps.len(),
            old(self)@.phase is Running,
        ensures
            (final(self)@, effects_view(final(effects)@)) == ({
                let (u, effs) = step_moved(old(self)@, (old(self)@.phase->step, verdict));
                (u, effects_view(old(effects)@) + effs)
            }),
    {
        match verdict {
            Some(v) => self.do_apply_verdict(effects, v),
            None => {
                assert(effects_view(old(effects)@) + seq![] =~= effects_view(old(effects)@));
            },
        }
    }

    /// Dispatches the current step: reports progress, resolves the step with
    /// the configured helper `preferred` and the detected one `detected`, and
    /// asks for its process. Ends the run when it was cancelled, when every
    /// step is done, or when the step cannot be resolved.
    pub fn execute_commands_sequence(&mut self, preferred: Option<&str>, detected: Option<&str>) -> (r:
        Vec<Effect>)
        requires
            old(self).wf(),
        ensures
            final(self).wf(),
            (final(self)@, effects_view(r@)) == next(
                old(self)@,
                RunEvent::Dispatch {
                    preferred: opt_str_view(preferred),
                    detected: opt_str_view(detected),
                },
            ),
    {
        let mut effects: Vec<Effect> = Vec::new();
        assert(effects_view(effects@) =~= seq![]);
        match self.phase {
            Phase::Ready => {},
            _ => {
                return effects;
            },
        }
        if self.cancelled {
            self.do_finish(&mut effects, false, String::from_str("Operation cancelled"));
            assert(effects_view(effects@) =~= next(old(self)@, RunEvent::Dispatch {
                preferred: opt_str_view(preferred),
                detected: opt_str_view(detected),
            }).1);
            return effects;
        }
        let n = self.commands.len();
        if self.index >= n {
            self.do_finish(
                &mut effects,
                true,
                String::from_str("All operations completed successfully!"),
            );
            assert(effects_view(effects@) =~= next(old(self)@, RunEvent::Dispatch {
                preferred: opt_str_view(preferred),
                detected: opt_str_view(detected),
            }).1);
            return effects;
        }
        let i = self.index;
        emit(&mut effects, Effect::Progress { current: i + 1, total: n });
        emit(&mut effects, Effect::Title { text: self.commands[i].friendly_name.clone() });
        emit(
            &mut effects,
            Effect::Log {
                text: header_text(i + 1, n, self.commands[i].friendly_name.as_str()),
                is_error: false,
            },
        );
        self.statuses.set(i, TaskStatus::Running);
        emit(&mut effects, Effect::Status { index: i, status: TaskStatus::Running });
        match resolve_command(&self.commands[i], preferred, detected) {
            Err(e) => {
                proof {
                    reveal_strlit("");
                }
                emit(
                    &mut effects,
                    Effect::Log { text: error_text("", e.message().as_str()), is_error: true },
                );
                self.do_fail_step(&mut effects, String::from_str("Failed to prepare command"));
            },
            Ok((program, args)) => {
                emit(&mut effects, Effect::Spawn { program, args });
                self.phase = Phase::Launching;
            },
        }
        effects
    }

    /// The requested process started. When the run was cancelled meanwhile,
    /// the process is asked to terminate.
    pub fn process_spawned(&mut self) -> (r: Vec<Effect>)
        requires
            old(self).wf(),
        ensures
            final(self).wf(),
            (final(self)@, effects_view(r@)) == next(old(self)@, RunEvent::Spawned),
    {
        let mut effects: Vec<Effect> = Vec::new();
        assert(effects_view(effects@) =~= seq![]);
        match self.phase {
            Phase::Launching => {},
            _ => {
                return effects;
            },
        }
        self.step = RunningCommandContext::new(self.index, self.commands.len());
        self.phase = Phase::Running;
        if self.cancelled {
            emit(&mut effects, Effect::ForceTerminate);
        }
        effects
    }

    /// The requested process could not be started: the step fails and the run ends.
    pub fn spawn_failed(&mut self, error: &str) -> (r: Vec<Effect>)
        requires
            old(self).wf(),
        ensures
            final(self).wf(),
            (final(self)@, effects_view(r@)) == next(
                old(self)@,
                RunEvent::SpawnFailed { error: error@ },
            ),
    {
        let mut effects: Vec<Effect> = Vec::new();
        assert(effects_view(effects@) =~= seq![]);
        match self.phase {
            Phase::Launching => {},
            _ => {
                return effects;
            },
        }
        emit(
            &mut effects,
            Effect::Log { text: error_text("Failed to start command: ", error), is_error: true },
        );
        self.do_fail_step(&mut effects, String::from_str("Failed to start operation"));
        effects
    }

    /// Step `index` wrote a line, on stderr when `is_error`.
    pub fn append_output(&mut self, index: usize, line: &str, is_error: bool) -> (r: Vec<Effect>)
        requires
            old(self).wf(),
        ensures
            final(self).wf(),
            (final(self)@, effects_view(r@)) == next(
                old(self)@,
                RunEvent::Output { index: index as nat, line: line@, is_error },
            ),
    {
        let mut effects: Vec<Effect> = Vec::new();
        assert(effects_view(effects@) =~= seq![]);
        if self.runs(index) {
            emit(&mut effects, Effect::Log { text: output_text(line), is_error });
        }
        effects
    }

    /// An output stream of step `index` ended (stderr when `is_error_stream`).
    pub fn mark_stream_done(&mut self, index: usize, is_error_stream: bool) -> (r: Vec<Effect>)
        requires
            old(self).wf(),
        ensures
            final(self).wf(),
            (final(self)@, effects_view(r@)) == next(
                old(self)@,
                RunEvent::StreamDone { index: index as nat, is_error_stream },
            ),
    {
        let mut effects: Vec<Effect> = Vec::new();
        assert(effects_view(effects@) =~= seq![]);
        if !self.runs(index) {
            return effects;
        }
        let v = self.step.mark_stream_done(is_error_stream, self.cancelled);
        self.close_with(&mut effects, v);
        effects
    }

    /// Reading an output stream of step `index` failed; that stream is over.
    pub fn read_failed(&mut self, index: usize, error: &str, is_error_stream: bool) -> (r: Vec<
        Effect,
    >)
        requires
            old(self).wf(),
        ensures
            final(self).wf(),
            (final(self)@, effects_view(r@)) == next(
                old(self)@,
                RunEvent::ReadFailed { index: index as nat, error: error@, is_error_stream },
            ),
    {
        let mut effects: Vec<Effect> = Vec::new();
        assert(effects_view(effects@) =~= seq![]);
        if !self.runs(index) {
            return effects;
        }
        emit(
            &mut effects,
            Effect::Log { text: error_text("Failed to read command output: ", error), is_error: true },
        );
        let v = self.step.mark_stream_done(is_error_stream, self.cancelled);
        self.close_with(&mut effects, v);
        effects
    }

    /// The process of step `index` exited with `result`.
    pub fn set_exit_result(&mut self, index: usize, result: CommandResult) -> (r: Vec<Effect>)
        requires
            old(self).wf(),
        ensures
            final(self).wf(),
            (final(self)@, effects_view(r@)) == next(
                old(self)@,
                RunEvent::Exited { index: index as nat, result },
            ),
    {
        let mut effects: Vec<Effect> = Vec::new();
        assert(effects_view(effects@) =~= seq![]);
        if !self.runs(index) {
            return effects;
        }
        let v = self.step.set_exit_result(result, self.cancelled);
        self.close_with(&mut effects, v);
        effects
    }

    /// The exit status of step `index` could not be had; the step fails
    /// without an exit code.
    pub fn wait_failed(&mut self, index: usize, error: &str) -> (r: Vec<Effect>)
        requires
            old(self).wf(),
        ensures
            final(self).wf(),
            (final(self)@, effects_view(r@)) == next(
                old(self)@,
                RunEvent::WaitFailed { index: index as nat, error: error@ },
            ),
    {
        let mut effects: Vec<Effect> = Vec::new();
        assert(effects_view(effects@) =~= seq![]);
        if !self.runs(index) {
            return effects;
        }
        emit(
            &mut effects,
            Effect::Log { text: error_text("Failed to wait for command: ", error), is_error: true },
        );
        let v = self.step.set_exit_result(CommandResult::Failure { exit_code: None }, self.cancelled);
        self.close_with(&mut effects, v);
        effects
    }

    /// The user asked to cancel. The flag stays set for the rest of the run;
    /// a running process is asked to terminate.
    pub fn cancel(&mut self) -> (r: Vec<Effect>)
        requires
            old(self).wf(),
        ensures
            final(self).wf(),
            (final(self)@, effects_view(r@)) == next(old(self)@, RunEvent::Cancel),
    {
        let mut effects: Vec<Effect> = Vec::new();
        assert(effects_view(effects@) =~= seq![]);
        let running = match self.phase {
            Phase::Finished { .. } => {
                return effects;
            },
            Phase::Running => true,
            _ => false,
        };
        if self.cancelled {
            return effects;
        }
        self.cancelled = true;
        emit(&mut effects, Effect::Log { text: String::from_str("\n[Cancelled by user]\n"), is_error: true });
        emit(&mut effects, Effect::DisableCancel);
        if running {
            emit(&mut effects, Effect::ForceTerminate);
        }
        assert(effects_view(effects@) =~= next(old(self)@, RunEvent::Cancel).1);
        effects
    }

    /// Whether the current step is due to be dispatched: the run has not
    /// started yet, or the previous step has just succeeded.
    pub fn awaits_dispatch(&self) -> (r: bool)
        ensures
            r == (self@.phase is Ready),
    {
        match self.phase {
            Phase::Ready => true,
            _ => false,
        }
    }

    /// Whether the user asked to cancel.
    pub fn is_cancelled(&self) -> (r: bool)
        ensures
            r == self@.cancelled,
    {
        self.cancelled
    }

    /// The index of the step that is, or is next to be, dispatched.
    pub fn current_index(&self) -> (r: usize)
        ensures
            r == self@.index,
    {
        self.index
    }

    /// The number of steps.
    pub fn total_commands(&self) -> (r: usize)
        ensures
            r == self@.steps.len(),
    {
        self.commands.len()
    }

    /// The outcome of the run once it is over: whether it succeeded.
    pub fn outcome(&self) -> (r: Option<bool>)
        ensures
            r == match self@.phase {
                PhaseModel::Finished { success } => Some(success),
                _ => None,
            },
    {
        match self.phase {
            Phase::Finished { success } => Some(success),
            _ => None,
        }
    }

    /// The status of the step at `index`.
    pub fn status(&self, index: usize) -> (r: TaskStatus)
        requires
            self.wf(),
            index < self@.steps.len(),
        ensures
            r == self@.statuses[index as int],
    {
        self.statuses[index]
    }
}

} // verus!
