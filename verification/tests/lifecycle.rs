use fluxcd::cap::lifecycle::{HostAction, HostEvent, HostPhase, EXIT_FAILURE, EXIT_SUCCESS};

fn run(events: &[HostEvent]) -> (HostPhase, Vec<HostAction>) {
    let mut phase = HostPhase::Building;
    let mut actions = Vec::new();
    for event in events {
        let (next, action) = phase.step(*event);
        phase = next;
        actions.push(action);
    }
    (phase, actions)
}

#[test]
fn host_runs_a_command_between_setup_and_teardown() {
    let (phase, actions) = run(&[
        HostEvent::Launched,
        HostEvent::TelemetryReady,
        HostEvent::SignalsSubscribed,
        HostEvent::CommandFinished { succeeded: true },
    ]);
    assert_eq!(phase, HostPhase::Terminated);
    assert_eq!(
        actions,
        vec![
            HostAction::SetUpTelemetry,
            HostAction::OpenShutdown,
            HostAction::Dispatch,
            HostAction::TearDownAndExit { status: EXIT_SUCCESS },
        ]
    );
    assert_eq!(EXIT_SUCCESS, 0);
    assert_ne!(EXIT_FAILURE, 0);
}

#[test]
fn host_drains_after_shutdown() {
    let (phase, actions) = run(&[
        HostEvent::Launched,
        HostEvent::TelemetryReady,
        HostEvent::SignalsSubscribed,
        HostEvent::ShutdownResolved,
        HostEvent::ShutdownResolved,
        HostEvent::ControllersFinished,
        HostEvent::ControllersFinished,
    ]);
    assert_eq!(phase, HostPhase::Terminated);
    assert_eq!(
        actions,
        vec![
            HostAction::SetUpTelemetry,
            HostAction::OpenShutdown,
            HostAction::Dispatch,
            HostAction::AwaitControllers,
            HostAction::Nothing,
            HostAction::TearDownAndExit { status: EXIT_SUCCESS },
            HostAction::Nothing,
        ]
    );
}

#[test]
fn host_startup_failure_ends_before_anything_runs() {
    let (phase, actions) = run(&[HostEvent::Launched, HostEvent::TelemetryFailed]);
    assert_eq!(phase, HostPhase::Terminated);
    assert_eq!(
        actions,
        vec![HostAction::SetUpTelemetry, HostAction::TearDownAndExit { status: EXIT_FAILURE }]
    );

    let (phase, actions) =
        run(&[HostEvent::Launched, HostEvent::TelemetryReady, HostEvent::SubscriptionFailed]);
    assert_eq!(phase, HostPhase::Terminated);
    assert_eq!(actions[2], HostAction::TearDownAndExit { status: EXIT_FAILURE });
    assert!(!actions.contains(&HostAction::Dispatch));
}

#[test]
fn host_command_error_gives_failure_status() {
    let (phase, actions) = run(&[
        HostEvent::Launched,
        HostEvent::TelemetryReady,
        HostEvent::SignalsSubscribed,
        HostEvent::CommandFinished { succeeded: false },
    ]);
    assert_eq!(phase, HostPhase::Terminated);
    assert_eq!(actions[3], HostAction::TearDownAndExit { status: EXIT_FAILURE });
}

#[test]
fn host_passes_over_events_out_of_turn() {
    assert_eq!(
        HostPhase::Building.step(HostEvent::TelemetryReady),
        (HostPhase::Building, HostAction::Nothing)
    );
    assert_eq!(
        HostPhase::Starting.step(HostEvent::ShutdownResolved),
        (HostPhase::Starting, HostAction::Nothing)
    );
    assert_eq!(
        HostPhase::Draining.step(HostEvent::CommandFinished { succeeded: false }),
        (HostPhase::Draining, HostAction::Nothing)
    );
    for event in [
        HostEvent::Launched,
        HostEvent::TelemetryReady,
        HostEvent::TelemetryFailed,
        HostEvent::SignalsSubscribed,
        HostEvent::SubscriptionFailed,
        HostEvent::CommandFinished { succeeded: true },
        HostEvent::ShutdownResolved,
        HostEvent::ControllersFinished,
    ] {
        assert_eq!(
            HostPhase::Terminated.step(event),
            (HostPhase::Terminated, HostAction::Nothing)
        );
    }
}
