//! The state of one running step: it closes once both output streams have
//! ended and the exit result is known, in whatever order those arrive.
use crate::types::CommandResult;
use vstd::prelude::*;

verus! {

/// How a finished step is to be treated.
#[derive(Clone, Copy, Debug, PartialEq, Eq, Structural)]
pub enum StepVerdict {
    /// The run was cancelled; the step's own result is disregarded.
    Cancelled,
    /// The step succeeded; the run moves on to the next step.
    Succeeded,
    /// The step failed; the run stops.
    Failed { exit_code: Option<i32> },
}

/// The verdict on a step with the given result, the cancellation flag read at
/// the moment the step closes.
pub open spec fn verdict_of(result: CommandResult, cancelled: bool) -> StepVerdict {
    if cancelled {
        StepVerdict::Cancelled
    } else {
        match result {
            CommandResult::Success => StepVerdict::Succeeded,
            CommandResult::Failure { exit_code } => StepVerdict::Failed { exit_code },
        }
    }
}

/// What a step's state is made of.
pub ghost struct StepModel {
    pub index: nat,
    pub total: nat,
    pub stdout_done: bool,
    pub stderr_done: bool,
    pub exit_result: Option<CommandResult>,
    pub finalized: bool,
}

/// A fresh step, with nothing received yet.
pub open spec fn fresh_step(index: nat, total: nat) -> StepModel {
    StepModel {
        index,
        total,
        stdout_done: false,
        stderr_done: false,
        exit_result: None,
        finalized: false,
    }
}

/// Closes the step if everything it waits for has arrived and it is not
/// closed yet; gives the verdict when it closes now.
pub open spec fn settle(m: StepModel, cancelled: bool) -> (StepModel, Option<StepVerdict>) {
    if !m.finalized && m.stdout_done && m.stderr_done && m.exit_result is Some {
        (
            StepModel { finalized: true, exit_result: None, ..m },
            Some(verdict_of(m.exit_result->0, cancelled)),
        )
    } else {
        (m, None)
    }
}

/// The step after one of its output streams ended.
pub open spec fn on_stream_done(m: StepModel, is_error_stream: bool, cancelled: bool) -> (
    StepModel,
    Option<StepVerdict>,
) {
    if m.finalized {
        (m, None)
    } else if is_error_stream {
        settle(StepModel { stderr_done: true, ..m }, cancelled)
    } else {
        settle(StepModel { stdout_done: true, ..m }, cancelled)
    }
}

/// The step after its exit result arrived.
pub open spec fn on_exit_result(m: StepModel, result: CommandResult, cancelled: bool) -> (
    StepModel,
    Option<StepVerdict>,
) {
    if m.finalized {
        (m, None)
    } else {
        settle(StepModel { exit_result: Some(result), ..m }, cancelled)
    }
}

/// The state of the step that is running.
pub struct RunningCommandContext {
    index: usize,
    total: usize,
    stdout_done: bool,
    stderr_done: bool,
    exit_result: Option<CommandResult>,
    finalized: bool,
}

impl View for RunningCommandContext {
    type V = StepModel;

    closed spec fn view(&self) -> StepModel {
        StepModel {
            index: self.index as nat,
            total: self.total as nat,
            stdout_done: self.stdout_done,
            stderr_done: self.stderr_done,
            exit_result: self.exit_result,
            finalized: self.finalized,
        }
    }
}

impl RunningCommandContext {
    /// A step at `index` of `total`, with nothing received yet.
    pub fn new(index: usize, total: usize) -> (r: Self)
        requires
            index < total,
        ensures
            r@ == fresh_step(index as nat, total as nat),
    {
        RunningCommandContext {
            index,
            total,
            stdout_done: false,
            stderr_done: false,
            exit_result: None,
            finalized: false,
        }
    }

    fn try_finalize(&mut self, cancelled: bool) -> (r: Option<StepVerdict>)
        ensures
            (final(self)@, r) == settle(old(self)@, cancelled),
    {
        if !self.finalized && self.stdout_done && self.stderr_done {
            match self.exit_result {
                Some(result) => {
                    self.exit_result = None;
                    self.finalized = true;
                    Some(
                        if cancelled {
                            StepVerdict::Cancelled
                        } else {
                            match result {
                                CommandResult::Success => StepVerdict::Succeeded,
                                CommandResult::Failure { exit_code } => StepVerdict::Failed {
                                    exit_code,
                                },
                            }
                        },
                    )
                },
                None => None,
            }
        } else {
            None
        }
    }

    /// Records the end of the output stream (stderr when `is_error_stream`).
    /// Returns the verdict when this closes the step; `cancelled` is the run's
    /// cancellation flag at this moment.
    pub fn mark_stream_done(&mut self, is_error_stream: bool, cancelled: bool) -> (r: Option<
        StepVerdict,
    >)
        ensures
            (final(self)@, r) == on_stream_done(old(self)@, is_error_stream, cancelled),
    {
        if self.finalized {
            return None;
        }
        if is_error_stream {
            self.stderr_done = true;
        } else {
            self.stdout_done = true;
        }
        self.try_finalize(cancelled)
    }

    /// Records the exit result. Returns the verdict when this closes the
    /// step; `cancelled` is the run's cancellation flag at this moment.
    pub fn set_exit_result(&mut self, result: CommandResult, cancelled: bool) -> (r: Option<
        StepVerdict,
    >)
        ensures
            (final(self)@, r) == on_exit_result(old(self)@, result, cancelled),
    {
        if self.finalized {
            return None;
        }
        self.exit_result = Some(result);
        self.try_finalize(cancelled)
    }

    /// Whether the step has closed.
    pub fn is_finalized(&self) -> (r: bool)
        ensures
            r == self@.finalized,
    {
        self.finalized
    }

    /// The index of this step.
    pub fn current_index(&self) -> (r: usize)
        ensures
            r == self@.index,
    {
        self.index
    }

    /// The number of steps in the run.
    pub fn total_commands(&self) -> (r: usize)
        ensures
            r == self@.total,
    {
        self.total
    }
}

} // verus!
