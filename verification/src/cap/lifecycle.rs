//! The life of the host: what it does next after each thing that happens to
//! it. The one who runs the host carries out each action and reports what
//! came of it.

use vstd::prelude::*;

verus! {

/// A phase of the life of the host.
#[derive(Clone, Copy, Debug, PartialEq, Eq, Structural)]
pub enum HostPhase {
    /// Controllers are being registered.
    Building,
    /// Telemetry is being set up.
    Starting,
    /// Telemetry is up and the signals of the process are being subscribed
    /// to.
    Subscribing,
    /// The command is being carried out; with the command that runs the
    /// controllers, they run.
    Running,
    /// Shutdown is resolved, and the host waits for the controllers to
    /// finish.
    Draining,
    /// Telemetry was torn down, and the process ends.
    Terminated,
}

/// Something that happens to the host.
#[derive(Clone, Copy, Debug, PartialEq, Eq, Structural)]
pub enum HostEvent {
    /// The controllers are registered, and the process is to run.
    Launched,
    /// Telemetry was set up.
    TelemetryReady,
    /// Telemetry could not be set up.
    TelemetryFailed,
    /// The signals of the process are subscribed to.
    SignalsSubscribed,
    /// The signals of the process could not be subscribed to.
    SubscriptionFailed,
    /// The command came to its end, well or not.
    CommandFinished { succeeded: bool },
    /// A signal resolved the shutdown.
    ShutdownResolved,
    /// The last controller has finished.
    ControllersFinished,
}

/// What the host does next.
#[derive(Clone, Copy, Debug, PartialEq, Eq, Structural)]
pub enum HostAction {
    /// Set up telemetry.
    SetUpTelemetry,
    /// Subscribe to the signals of the process, once.
    OpenShutdown,
    /// Carry out the command with all registered controllers.
    Dispatch,
    /// Wait until every controller has finished, however long it takes.
    AwaitControllers,
    /// Tear down telemetry, then end the process with this status.
    TearDownAndExit { status: i32 },
    /// Nothing: the event has no bearing on the phase.
    Nothing,
}

/// The exit status of a process that ended well.
pub const EXIT_SUCCESS: i32 = 0;

/// The exit status of a process that ended with an error.
pub const EXIT_FAILURE: i32 = 1;

/// The exit status for an end that was good or not.
pub open spec fn exit_status(succeeded: bool) -> i32 {
    if succeeded {
        EXIT_SUCCESS
    } else {
        EXIT_FAILURE
    }
}

impl HostPhase {
    /// How far the phase is into the life of the host.
    pub open spec fn rank(self) -> nat {
        match self {
            HostPhase::Building => 0,
            HostPhase::Starting => 1,
            HostPhase::Subscribing => 2,
            HostPhase::Running => 3,
            HostPhase::Draining => 4,
            HostPhase::Terminated => 5,
        }
    }

    /// The phase after `event`, and what the host does next.
    ///
    /// A failure to set up telemetry or to subscribe to the signals ends
    /// the process before anything has run. However the end is reached,
    /// telemetry is torn down. A controller that fails does not end the
    /// others, and the host that has drained ends well.
    pub open spec fn after(self, event: HostEvent) -> (HostPhase, HostAction) {
        match (self, event) {
            (HostPhase::Building, HostEvent::Launched) => (
                HostPhase::Starting,
                HostAction::SetUpTelemetry,
            ),
            (HostPhase::Starting, HostEvent::TelemetryReady) => (
                HostPhase::Subscribing,
                HostAction::OpenShutdown,
            ),
            (HostPhase::Starting, HostEvent::TelemetryFailed) => (
                HostPhase::Terminated,
                HostAction::TearDownAndExit { status: EXIT_FAILURE },
            ),
            (HostPhase::Subscribing, HostEvent::SignalsSubscribed) => (
                HostPhase::Running,
                HostAction::Dispatch,
            ),
            (HostPhase::Subscribing, HostEvent::SubscriptionFailed) => (
                HostPhase::Terminated,
                HostAction::TearDownAndExit { status: EXIT_FAILURE },
            ),
            (HostPhase::Running, HostEvent::CommandFinished { succeeded }) => (
                HostPhase::Terminated,
                HostAction::TearDownAndExit { status: exit_status(succeeded) },
            ),
            (HostPhase::Running, HostEvent::ShutdownResolved) => (
                HostPhase::Draining,
                HostAction::AwaitControllers,
            ),
            (HostPhase::Draining, HostEvent::ControllersFinished) => (
                HostPhase::Terminated,
                HostAction::TearDownAndExit { status: EXIT_SUCCESS },
            ),
            _ => (self, HostAction::Nothing),
        }
    }

    /// The phase after the events `events`, taken in their order.
    pub open spec fn after_all(self, events: Seq<HostEvent>) -> HostPhase
        decreases events.len(),
    {
        if events.len() == 0 {
            self
        } else {
            self.after_all(events.drop_last()).after(events.last()).0
        }
    }

    /// How many times telemetry is torn down while the events `events` are
    /// taken in their order.
    pub open spec fn teardowns(self, events: Seq<HostEvent>) -> nat
        decreases events.len(),
    {
        if events.len() == 0 {
            0
        } else {
            let before = self.teardowns(events.drop_last());
            match self.after_all(events.drop_last()).after(events.last()).1 {
                HostAction::TearDownAndExit { .. } => before + 1,
                _ => before,
            }
        }
    }

    /// Takes the host from its phase to the next one, and tells what it
    /// does next.
    pub fn step(self, event: HostEvent) -> (r: (HostPhase, HostAction))
        ensures
            r == self.after(event),
    {
        match (self, event) {
            (HostPhase::Building, HostEvent::Launched) => (
                HostPhase::Starting,
                HostAction::SetUpTelemetry,
            ),
            (HostPhase::Starting, HostEvent::TelemetryReady) => (
                HostPhase::Subscribing,
                HostAction::OpenShutdown,
            ),
            (HostPhase::Starting, HostEvent::TelemetryFailed) => (
                HostPhase::Terminated,
                HostAction::TearDownAndExit { status: EXIT_FAILURE },
            ),
            (HostPhase::Subscribing, HostEvent::SignalsSubscribed) => (
                HostPhase::Running,
                HostAction::Dispatch,
            ),
            (HostPhase::Subscribing, HostEvent::SubscriptionFailed) => (
                HostPhase::Terminated,
                HostAction::TearDownAndExit { status: EXIT_FAILURE },
            ),
            (HostPhase::Running, HostEvent::CommandFinished { succeeded }) => {
                let status = if succeeded {
                    EXIT_SUCCESS
                } else {
                    EXIT_FAILURE
                };
                (HostPhase::Terminated, HostAction::TearDownAndExit { status })
            },
            (HostPhase::Running, HostEvent::ShutdownResolved) => (
                HostPhase::Draining,
                HostAction::AwaitControllers,
            ),
            (HostPhase::Draining, HostEvent::ControllersFinished) => (
                HostPhase::Terminated,
                HostAction::TearDownAndExit { status: EXIT_SUCCESS },
            ),
            (phase, _) => (phase, HostAction::Nothing),
        }
    }
}

/// The host never goes back to an earlier phase.
pub proof fn lemma_phases_advance(phase: HostPhase, event: HostEvent)
    ensures
        phase.rank() <= phase.after(event).0.rank(),
{
}

/// The host that has ended stays ended and does nothing more.
pub proof fn lemma_terminated_is_final(event: HostEvent)
    ensures
        HostPhase::Terminated.after(event) == (HostPhase::Terminated, HostAction::Nothing),
{
}

/// Telemetry is torn down when the host ends, and only then.
pub proof fn lemma_teardown_on_termination(phase: HostPhase, event: HostEvent)
    ensures
        (phase.after(event).1 is TearDownAndExit) <==> (phase != HostPhase::Terminated
            && phase.after(event).0 == HostPhase::Terminated),
{
}

/// Whatever happens to the host, telemetry is torn down at most once, and
/// exactly once where the host has ended after it was built.
pub proof fn lemma_one_teardown(events: Seq<HostEvent>)
    ensures
        HostPhase::Building.teardowns(events) == if HostPhase::Building.after_all(events)
            == HostPhase::Terminated {
            1nat
        } else {
            0nat
        },
    decreases events.len(),
{
    if events.len() > 0 {
        lemma_one_teardown(events.drop_last());
        lemma_teardown_on_termination(
            HostPhase::Building.after_all(events.drop_last()),
            events.last(),
        );
    }
}

/// Nothing runs before telemetry is up and the signals are subscribed to:
/// the command is dispatched only from the phase that follows both.
pub proof fn lemma_dispatch_after_startup(phase: HostPhase, event: HostEvent)
    ensures
        phase.after(event).1 == HostAction::Dispatch ==> phase == HostPhase::Subscribing && event
            == HostEvent::SignalsSubscribed,
{
}

} // verus!
