//! The decisions of a spawned job's supervisor: how a command changes the
//! job's running state and what its tasks are told, and when the runner's
//! tables give memory back.
use vstd::prelude::*;
use crate::job_report::Command;

verus! {

/// Whether a job's tasks may run.
#[derive(Debug, Clone, Copy, PartialEq, Eq, Structural)]
pub enum JobRunningState {
    Running,
    Paused,
}

impl Default for JobRunningState {
    fn default() -> (r: Self)
        ensures
            r == JobRunningState::Running,
    {
        JobRunningState::Running
    }
}

/// What a job's live tasks are told.
#[derive(Debug, Clone, Copy, PartialEq, Eq, Structural)]
pub enum TaskControl {
    Pause,
    Resume,
    Cancel,
}

/// What a command does to a spawned job: its running state afterwards,
/// what its live tasks are told, and whether the job ends (reporting that
/// it was canceled).
pub open spec fn command_effect(state: JobRunningState, command: Command) -> (JobRunningState, TaskControl, bool) {
    match command {
        Command::Pause => (JobRunningState::Paused, TaskControl::Pause, false),
        Command::Resume => (JobRunningState::Running, TaskControl::Resume, false),
        Command::Cancel => (state, TaskControl::Cancel, true),
    }
}

/// Applies a command to a spawned job in state `state`.
pub fn spawned_job_command(state: JobRunningState, command: Command) -> (r: (JobRunningState, TaskControl, bool))
    ensures
        r == command_effect(state, command),
{
    match command {
        Command::Pause => (JobRunningState::Paused, TaskControl::Pause, false),
        Command::Resume => (JobRunningState::Running, TaskControl::Resume, false),
        Command::Cancel => (state, TaskControl::Cancel, true),
    }
}

/// The positions of the task controllers still live (not done), in order:
/// the only ones a command reaches.
pub fn live_controllers(done: &Vec<bool>) -> (r: Vec<usize>)
    ensures
        forall|k: int| 0 <= k < r@.len() ==> (#[trigger] r@[k]) < done@.len() && !done@[r@[k] as int],
        forall|i: int| 0 <= i < done@.len() && !done@[i] ==> r@.contains(i as usize),
        forall|a: int, b: int| 0 <= a < b < r@.len() ==> (#[trigger] r@[a]) < (#[trigger] r@[b]),
{
    let mut r: Vec<usize> = Vec::new();
    let mut i: usize = 0;
    while i < done.len()
        invariant
            i <= done@.len(),
            forall|k: int| 0 <= k < r@.len() ==> (#[trigger] r@[k]) < i && !done@[r@[k] as int],
            forall|j: int| 0 <= j < i && !done@[j] ==> r@.contains(j as usize),
            forall|a: int, b: int| 0 <= a < b < r@.len() ==> (#[trigger] r@[a]) < (#[trigger] r@[b]),
        decreases done.len() - i,
    {
        if !done[i] {
            let ghost before = r@;
            r.push(i);
            proof {
                assert forall|j: int| 0 <= j < i + 1 && !done@[j] implies r@.contains(j as usize) by {
                    if j < i {
                        let k = choose|k: int| 0 <= k < before.len() && before[k] == j as usize;
                        assert(r@[k] == j as usize);
                    } else {
                        assert(r@[before.len() as int] == i);
                    }
                }
            }
        }
        i = i + 1;
    }
    r
}

/// The capacity the runner's tables start with and shrink back to.
pub const JOBS_INITIAL_CAPACITY: usize = 32;

/// Whether a table of the runner gives memory back: it grew beyond its
/// initial capacity and holds fewer entries than that now.
pub fn should_shrink(capacity: usize, len: usize) -> (r: bool)
    ensures
        r == (capacity > JOBS_INITIAL_CAPACITY && len < JOBS_INITIAL_CAPACITY),
{
    capacity > JOBS_INITIAL_CAPACITY && len < JOBS_INITIAL_CAPACITY
}


/// What a spawned job's supervisor receives.
#[derive(Debug, Clone, Copy, PartialEq, Eq, Structural)]
pub enum SupervisorEvent {
    /// A task of the job was dispatched; its controller is handed over.
    NewRemoteController,
    Command(Command),
    /// The job's run ended.
    Done,
    /// Resuming the job's stored tasks failed, before its run started.
    ResumeFailed,
}

/// What the supervisor does with an event.
#[derive(Debug, Clone, Copy, PartialEq, Eq, Structural)]
pub enum SupervisorAction {
    /// Keep the controller with the others.
    TrackController,
    /// Drop the controllers of finished tasks, tell the live ones
    /// `control`, and stop (reporting the job canceled) when `ends`.
    ControlTasks { control: TaskControl, ends: bool },
    /// Hand the job's return status to the runner and stop.
    ReportDone,
    /// Hand the resume error to the runner and stop; the job never runs.
    ReportResumeError,
}

/// The supervisor's next running state and action for an event. Its loop
/// ends on a canceling command, on the end of the job's run, and on a
/// failed resume of its stored tasks.
pub open spec fn supervisor_transition(state: JobRunningState, event: SupervisorEvent) -> (
    JobRunningState,
    SupervisorAction,
) {
    match event {
        SupervisorEvent::NewRemoteController => (state, SupervisorAction::TrackController),
        SupervisorEvent::Command(c) => {
            let (next, control, ends) = command_effect(state, c);
            (next, SupervisorAction::ControlTasks { control, ends })
        },
        SupervisorEvent::Done => (state, SupervisorAction::ReportDone),
        SupervisorEvent::ResumeFailed => (state, SupervisorAction::ReportResumeError),
    }
}

/// One step of a spawned job's supervisor loop.
pub fn supervisor_step(state: JobRunningState, event: SupervisorEvent) -> (r: (JobRunningState, SupervisorAction))
    ensures
        r == supervisor_transition(state, event),
{
    match event {
        SupervisorEvent::NewRemoteController => (state, SupervisorAction::TrackController),
        SupervisorEvent::Command(c) => {
            let (next, control, ends) = spawned_job_command(state, c);
            (next, SupervisorAction::ControlTasks { control, ends })
        },
        SupervisorEvent::Done => (state, SupervisorAction::ReportDone),
        SupervisorEvent::ResumeFailed => (state, SupervisorAction::ReportResumeError),
    }
}

} // verus!
