//! The life of the editor's runtime: its states, the events it reacts to and
//! the decisions it takes on them.

use vstd::prelude::*;

verus! {

/// Where the runtime is in its life.
#[derive(Debug, PartialEq, Eq, Clone, Copy, Structural)]
pub enum RuntimeState {
    Created,
    Starting,
    Running,
    Stopping,
    Stopped,
    Failed,
}

/// What the event loop does after an event.
#[derive(Debug, PartialEq, Eq, Clone, Copy, Structural)]
pub enum RuntimeAction {
    Continue,
    Stop,
}

/// An event the runtime reacts to.
#[derive(Debug, PartialEq, Eq, Clone, Copy, Structural)]
pub enum AppEvent {
    ShutdownRequested,
}

impl AppEvent {
    /// The name of the event.
    pub fn name(&self) -> (r: &'static str)
        ensures
            r@ == "ShutdownRequested"@,
    {
        match self {
            AppEvent::ShutdownRequested => "ShutdownRequested",
        }
    }
}

/// Decides what the runtime does on each event.
pub struct EventDispatcher;

impl EventDispatcher {
    pub fn new() -> (r: EventDispatcher) {
        EventDispatcher
    }

    /// A request to shut down stops the event loop.
    pub fn dispatch(&self, event: AppEvent) -> (r: RuntimeAction)
        ensures
            r == match event {
                AppEvent::ShutdownRequested => RuntimeAction::Stop,
            },
    {
        match event {
            AppEvent::ShutdownRequested => RuntimeAction::Stop,
        }
    }
}

/// What the event loop does with the next message of its channel: a closed
/// channel (`None`) ends it, an event goes by the dispatcher's decision.
pub fn next_action(dispatcher: &EventDispatcher, event: Option<AppEvent>) -> (r: RuntimeAction)
    ensures
        r == match event {
            None => RuntimeAction::Stop,
            Some(AppEvent::ShutdownRequested) => RuntimeAction::Stop,
        },
{
    match event {
        None => RuntimeAction::Stop,
        Some(e) => dispatcher.dispatch(e),
    }
}

/// The state a run ends in and what it reports, given how the event loop and
/// the shutdown after it went: stopped where both went well; failed
/// otherwise, reporting the event loop's error before the shutdown's.
pub fn settle_run<E>(event_loop: Result<(), E>, shutdown: Result<(), E>) -> (r: (
    RuntimeState,
    Result<(), E>,
))
    ensures
        match (event_loop, shutdown) {
            (Ok(()), Ok(())) => r.0 == RuntimeState::Stopped && r.1 is Ok,
            (Err(e), _) => r.0 == RuntimeState::Failed && r.1 == Err::<(), E>(e),
            (Ok(()), Err(e)) => r.0 == RuntimeState::Failed && r.1 == Err::<(), E>(e),
        },
{
    match (event_loop, shutdown) {
        (Ok(()), Ok(())) => (RuntimeState::Stopped, Ok(())),
        (Err(e), _) => (RuntimeState::Failed, Err(e)),
        (Ok(()), Err(e)) => (RuntimeState::Failed, Err(e)),
    }
}

/// What someone waiting for the runtime to run learns from its state.
#[derive(Debug, PartialEq, Eq, Clone, Copy, Structural)]
pub enum StartupStatus {
    /// The runtime runs.
    Running,
    /// The runtime will not run: it failed or stopped.
    FailedToStart,
    /// The runtime has not got there yet; wait for its next state.
    Pending,
}

/// The startup status that `state` gives.
pub fn startup_status(state: RuntimeState) -> (r: StartupStatus)
    ensures
        r == match state {
            RuntimeState::Running => StartupStatus::Running,
            RuntimeState::Failed | RuntimeState::Stopped => StartupStatus::FailedToStart,
            _ => StartupStatus::Pending,
        },
{
    match state {
        RuntimeState::Running => StartupStatus::Running,
        RuntimeState::Failed | RuntimeState::Stopped => StartupStatus::FailedToStart,
        _ => StartupStatus::Pending,
    }
}

/// What can go wrong with a plugin.
#[derive(Debug)]
pub enum PluginError {
    InitializationFailed(String),
    ShutdownFailed(String),
    Other(String),
}

/// The name, display name and version of a plugin.
#[derive(Debug, Clone, Copy, PartialEq, Eq)]
pub struct PluginDescriptor {
    id: &'static str,
    name: &'static str,
    version: &'static str,
}

impl PluginDescriptor {
    pub closed spec fn spec_id(&self) -> Seq<char> {
        self.id@
    }

    pub closed spec fn spec_name(&self) -> Seq<char> {
        self.name@
    }

    pub closed spec fn spec_version(&self) -> Seq<char> {
        self.version@
    }

    pub fn new(id: &'static str, name: &'static str, version: &'static str) -> (r: PluginDescriptor)
        ensures
            r.spec_id() == id@,
            r.spec_name() == name@,
            r.spec_version() == version@,
    {
        PluginDescriptor { id, name, version }
    }

    pub fn id(&self) -> (r: &'static str)
        ensures
            r@ == self.spec_id(),
    {
        self.id
    }

    pub fn name(&self) -> (r: &'static str)
        ensures
            r@ == self.spec_name(),
    {
        self.name
    }

    pub fn version(&self) -> (r: &'static str)
        ensures
            r@ == self.spec_version(),
    {
        self.version
    }
}

/// What reaches the task manager's loop.
#[derive(Debug, PartialEq, Eq, Clone, Copy, Structural)]
pub enum TaskManagerEvent {
    /// Its command channel closed: no handle is left.
    CommandsClosed,
    /// A handle asked it to run a task.
    SpawnRequested,
    /// A handle asked it to shut down.
    ShutdownRequested,
    /// One of its tasks ended.
    TaskFinished,
}

/// What the task manager does about an event.
#[derive(Debug, PartialEq, Eq, Clone, Copy, Structural)]
pub enum TaskManagerAction {
    /// Abort the running tasks, wait for them and stop.
    AbortAndStop,
    /// Run the task.
    Spawn,
    /// Run the tasks still pending, give the running ones the time allowed
    /// (aborting them after it), answer the request and stop.
    ShutDownAndStop,
    /// Carry on (with the shutdown, while shutting down); for an ended task,
    /// note how it ended.
    Continue,
}

/// The action the task manager takes on `event`, given whether it is
/// already shutting down. While it does, it still runs the tasks requested
/// before the shutdown, ignores a second request to shut down, and goes on
/// with the shutdown once no command is left.
pub fn task_manager_action(shutting_down: bool, event: TaskManagerEvent) -> (r: TaskManagerAction)
    ensures
        r == match event {
            TaskManagerEvent::CommandsClosed => if shutting_down {
                TaskManagerAction::Continue
            } else {
                TaskManagerAction::AbortAndStop
            },
            TaskManagerEvent::SpawnRequested => TaskManagerAction::Spawn,
            TaskManagerEvent::ShutdownRequested => if shutting_down {
                TaskManagerAction::Continue
            } else {
                TaskManagerAction::ShutDownAndStop
            },
            TaskManagerEvent::TaskFinished => TaskManagerAction::Continue,
        },
{
    match event {
        TaskManagerEvent::CommandsClosed => if shutting_down {
            TaskManagerAction::Continue
        } else {
            TaskManagerAction::AbortAndStop
        },
        TaskManagerEvent::SpawnRequested => TaskManagerAction::Spawn,
        TaskManagerEvent::ShutdownRequested => if shutting_down {
            TaskManagerAction::Continue
        } else {
            TaskManagerAction::ShutDownAndStop
        },
        TaskManagerEvent::TaskFinished => TaskManagerAction::Continue,
    }
}

/// The task manager has stopped and takes no more work.
#[derive(Debug, PartialEq, Eq, Clone, Copy, Structural)]
pub enum TaskError {
    ManagerStopped,
}

} // verus!
