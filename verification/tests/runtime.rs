use forge::runtime::{
    next_action, settle_run, startup_status, task_manager_action, AppEvent, EventDispatcher,
    PluginDescriptor, RuntimeAction, RuntimeState, StartupStatus, TaskManagerAction,
    TaskManagerEvent,
};

#[test]
fn shutdown_request_stops_the_loop() {
    let dispatcher = EventDispatcher::new();
    assert_eq!(dispatcher.dispatch(AppEvent::ShutdownRequested), RuntimeAction::Stop);
    assert_eq!(next_action(&dispatcher, None), RuntimeAction::Stop);
    assert_eq!(AppEvent::ShutdownRequested.name(), "ShutdownRequested");
}

#[test]
fn run_outcome_prefers_event_loop_error() {
    assert_eq!(settle_run::<&str>(Ok(()), Ok(())), (RuntimeState::Stopped, Ok(())));
    assert_eq!(settle_run(Err("loop"), Err("shutdown")), (RuntimeState::Failed, Err("loop")));
    assert_eq!(settle_run(Ok(()), Err("shutdown")), (RuntimeState::Failed, Err("shutdown")));
    assert_eq!(settle_run(Err("loop"), Ok(())), (RuntimeState::Failed, Err("loop")));
}

#[test]
fn startup_status_follows_state() {
    assert_eq!(startup_status(RuntimeState::Running), StartupStatus::Running);
    assert_eq!(startup_status(RuntimeState::Failed), StartupStatus::FailedToStart);
    assert_eq!(startup_status(RuntimeState::Stopped), StartupStatus::FailedToStart);
    assert_eq!(startup_status(RuntimeState::Created), StartupStatus::Pending);
    assert_eq!(startup_status(RuntimeState::Starting), StartupStatus::Pending);
}

#[test]
fn plugin_descriptor_keeps_its_fields() {
    let descriptor = PluginDescriptor::new("forge.git", "Git", "0.1.0");
    assert_eq!(descriptor.id(), "forge.git");
    assert_eq!(descriptor.name(), "Git");
    assert_eq!(descriptor.version(), "0.1.0");
}

#[test]
fn task_manager_stops_on_shutdown_or_closed_channel() {
    assert_eq!(
        task_manager_action(false, TaskManagerEvent::CommandsClosed),
        TaskManagerAction::AbortAndStop
    );
    assert_eq!(
        task_manager_action(false, TaskManagerEvent::ShutdownRequested),
        TaskManagerAction::ShutDownAndStop
    );
    assert_eq!(
        task_manager_action(false, TaskManagerEvent::SpawnRequested),
        TaskManagerAction::Spawn
    );
    assert_eq!(
        task_manager_action(false, TaskManagerEvent::TaskFinished),
        TaskManagerAction::Continue
    );
}

#[test]
fn task_manager_runs_pending_tasks_while_shutting_down() {
    assert_eq!(
        task_manager_action(true, TaskManagerEvent::SpawnRequested),
        TaskManagerAction::Spawn
    );
    assert_eq!(
        task_manager_action(true, TaskManagerEvent::ShutdownRequested),
        TaskManagerAction::Continue
    );
    assert_eq!(
        task_manager_action(true, TaskManagerEvent::CommandsClosed),
        TaskManagerAction::Continue
    );
}
