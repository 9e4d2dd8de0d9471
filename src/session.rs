//! The slot that lets one run at a time go ahead.
use vstd::prelude::*;

verus! {

/// Why a new run was not started.
#[derive(Clone, Copy, Debug, PartialEq, Eq, Structural)]
pub enum StartError {
    /// The run has no steps.
    NoCommands,
    /// Another run is in progress.
    AlreadyRunning,
}

/// Whether a run is in progress. At most one is, at any time.
pub struct ActionSlot {
    running: bool,
}

impl View for ActionSlot {
    type V = bool;

    closed spec fn view(&self) -> bool {
        self.running
    }
}

impl ActionSlot {
    /// A slot with no run in progress.
    pub fn new() -> (r: Self)
        ensures
            !r@,
    {
        ActionSlot { running: false }
    }

    /// Whether a run is in progress.
    pub fn is_action_running(&self) -> (r: bool)
        ensures
            r == self@,
    {
        self.running
    }

    /// Lets a run of `command_count` steps start, unless it has no steps or
    /// another run is in progress; a run that starts takes the slot.
    pub fn try_start(&mut self, command_count: usize) -> (r: Result<(), StartError>)
        ensures
            command_count == 0 ==> r == Err::<(), StartError>(StartError::NoCommands),
            command_count > 0 && old(self)@ ==> r == Err::<(), StartError>(
                StartError::AlreadyRunning,
            ),
            command_count > 0 && !old(self)@ ==> r is Ok,
            final(self)@ == (old(self)@ || r is Ok),
    {
        if command_count == 0 {
            return Err(StartError::NoCommands);
        }
        if self.running {
            return Err(StartError::AlreadyRunning);
        }
        self.running = true;
        Ok(())
    }

    /// Frees the slot: the run ended, however it ended.
    pub fn finish(&mut self)
        ensures
            !final(self)@,
    {
        self.running = false;
    }
}

} // verus!
