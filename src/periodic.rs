use vstd::prelude::*;

verus! {

/// A named recurring task. The runtime that drives it feeds each event to
/// `on_event` and performs the returned action.
#[derive(Clone, Debug)]
pub struct PeriodicTask {
    pub name: String,
}

/// What the runtime observed at an await point of a task's loop.
#[derive(Clone, Copy, Debug, PartialEq, Eq, Structural)]
pub enum TaskEvent {
    /// The interval elapsed (missed ticks collapse into one).
    Tick,
    /// The task's handle asked for cancellation.
    Cancel,
    /// The process-wide shutdown signal fired.
    Shutdown,
}

/// What the runtime does in response.
#[derive(Clone, Copy, Debug, PartialEq, Eq, Structural)]
pub enum TaskAction {
    /// Await the task's work; its failure is logged and the loop goes on.
    RunTask,
    /// Do nothing for this event.
    Ignore,
    /// Leave the loop.
    Stop,
}

/// Loop state of a running periodic task.
#[derive(Clone, Copy, Debug, PartialEq, Eq, Structural)]
pub struct TaskState {
    /// The next tick is the immediate first one, to be discarded.
    pub discard_next_tick: bool,
    /// The task listens for cancellation.
    pub enable_cancel: bool,
    /// The loop has ended.
    pub stopped: bool,
}

/// The action owed for `event` in state `s`.
pub open spec fn action_spec(s: TaskState, event: TaskEvent) -> TaskAction {
    if s.stopped {
        TaskAction::Stop
    } else {
        match event {
            TaskEvent::Tick => if s.discard_next_tick {
                TaskAction::Ignore
            } else {
                TaskAction::RunTask
            },
            TaskEvent::Cancel => if s.enable_cancel {
                TaskAction::Stop
            } else {
                TaskAction::Ignore
            },
            TaskEvent::Shutdown => TaskAction::Stop,
        }
    }
}

impl PeriodicTask {
    pub fn new(name: &str) -> (r: Self)
        ensures
            r.name@ == name@,
    {
        PeriodicTask { name: name.to_owned() }
    }

    /// The state of a task that has just started. Unless it runs
    /// immediately, its first (immediate) tick is discarded.
    pub fn start_state(enable_cancel: bool, run_immediately: bool) -> (r: TaskState)
        ensures
            r == (TaskState { discard_next_tick: !run_immediately, enable_cancel, stopped: false }),
    {
        TaskState { discard_next_tick: !run_immediately, enable_cancel, stopped: false }
    }

    /// Handles one event: a tick runs the work (but the discarded first
    /// one); cancellation, when enabled, and shutdown stop the loop; a
    /// stopped loop stays stopped.
    pub fn on_event(state: &mut TaskState, event: TaskEvent) -> (r: TaskAction)
        ensures
            r == action_spec(*old(state), event),
            final(state).stopped == (r == TaskAction::Stop),
            final(state).enable_cancel == old(state).enable_cancel,
            final(state).discard_next_tick == (old(state).discard_next_tick && event
                != TaskEvent::Tick && !final(state).stopped),
    {
        if state.stopped {
            state.discard_next_tick = false;
            return TaskAction::Stop;
        }
        let action = match event {
            TaskEvent::Tick => {
                if state.discard_next_tick {
                    TaskAction::Ignore
                } else {
                    TaskAction::RunTask
                }
            },
            TaskEvent::Cancel => {
                if state.enable_cancel {
                    TaskAction::Stop
                } else {
                    TaskAction::Ignore
                }
            },
            TaskEvent::Shutdown => TaskAction::Stop,
        };
        if event == TaskEvent::Tick {
            state.discard_next_tick = false;
        }
        if action == TaskAction::Stop {
            state.stopped = true;
            state.discard_next_tick = false;
        }
        action
    }
}

/// Once stopped, a task performs no more work: every later event yields `Stop`.
pub proof fn lemma_stop_is_final(s: TaskState, event: TaskEvent)
    requires
        s.stopped,
    ensures
        action_spec(s, event) == TaskAction::Stop,
{
}

} // verus!
