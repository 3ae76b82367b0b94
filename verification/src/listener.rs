use vstd::prelude::*;

verus! {

/// The lifecycle of one service's listener task.
#[derive(Clone, Copy, Debug, PartialEq, Eq, Structural)]
pub enum ListenerState {
    /// Binding the configured port for the configured protocol.
    Starting,
    /// Bound; accepting connections and handling each independently.
    Running,
    /// Stop signal received: accepting no new connections, draining.
    Stopping,
    /// Terminal: either drained after a stop or dead after a bind failure.
    Stopped,
}

/// What a listener observes at a suspension point.
#[derive(Clone, Copy, Debug, PartialEq, Eq, Structural)]
pub enum ListenerEvent {
    /// The port was bound successfully.
    BindOk,
    /// The port could not be bound, or TLS material was rejected.
    BindFail,
    /// The stop signal arrived on the service's control channel.
    StopSignal,
    /// A connection arrived.
    ConnArrived,
    /// The last in-flight connection finished.
    Drained,
}

/// What the surrounding task must do after a transition.
#[derive(Clone, Copy, Debug, PartialEq, Eq, Structural)]
pub enum ListenerCommand {
    /// Begin the accept loop.
    AcceptConnections,
    /// Surface a fatal `ListenerBindFailure` to the orchestrator; the
    /// service is marked unavailable and not retried.
    ReportBindFailure,
    /// Handle the arrived connection concurrently, without blocking the
    /// accept loop.
    HandleConnection,
    /// Turn the connection away: close it, or answer "not found" per
    /// protocol.
    RefuseConnection,
    /// Stop accepting and let in-flight connections drain.
    DrainConnections,
    /// The task is done.
    Finish,
    /// Nothing to do.
    Ignore,
}

/// The listener transition relation: `Starting -> Running -> Stopping ->
/// Stopped`, with a failed bind jumping straight to `Stopped` (never
/// through `Running`) and a stop signal honoured in every live state.
pub open spec fn spec_listener_step(s: ListenerState, e: ListenerEvent) -> (
    ListenerState,
    ListenerCommand,
) {
    match (s, e) {
        (ListenerState::Starting, ListenerEvent::BindOk) => (
            ListenerState::Running,
            ListenerCommand::AcceptConnections,
        ),
        (ListenerState::Starting, ListenerEvent::BindFail) => (
            ListenerState::Stopped,
            ListenerCommand::ReportBindFailure,
        ),
        (ListenerState::Starting, ListenerEvent::StopSignal) => (
            ListenerState::Stopped,
            ListenerCommand::Finish,
        ),
        (ListenerState::Starting, _) => (ListenerState::Starting, ListenerCommand::Ignore),
        (ListenerState::Running, ListenerEvent::ConnArrived) => (
            ListenerState::Running,
            ListenerCommand::HandleConnection,
        ),
        (ListenerState::Running, ListenerEvent::StopSignal) => (
            ListenerState::Stopping,
            ListenerCommand::DrainConnections,
        ),
        (ListenerState::Running, _) => (ListenerState::Running, ListenerCommand::Ignore),
        (ListenerState::Stopping, ListenerEvent::ConnArrived) => (
            ListenerState::Stopping,
            ListenerCommand::RefuseConnection,
        ),
        (ListenerState::Stopping, ListenerEvent::Drained) => (
            ListenerState::Stopped,
            ListenerCommand::Finish,
        ),
        (ListenerState::Stopping, _) => (ListenerState::Stopping, ListenerCommand::Ignore),
        (ListenerState::Stopped, _) => (ListenerState::Stopped, ListenerCommand::Ignore),
    }
}

/// Advances one listener by one observed event, exactly as
/// `spec_listener_step` says.
pub fn listener_step(s: ListenerState, e: ListenerEvent) -> (r: (ListenerState, ListenerCommand))
    ensures
        r == spec_listener_step(s, e),
{
    match (s, e) {
        (ListenerState::Starting, ListenerEvent::BindOk) => (
            ListenerState::Running,
            ListenerCommand::AcceptConnections,
        ),
        (ListenerState::Starting, ListenerEvent::BindFail) => (
            ListenerState::Stopped,
            ListenerCommand::ReportBindFailure,
        ),
        (ListenerState::Starting, ListenerEvent::StopSignal) => (
            ListenerState::Stopped,
            ListenerCommand::Finish,
        ),
        (ListenerState::Starting, _) => (ListenerState::Starting, ListenerCommand::Ignore),
        (ListenerState::Running, ListenerEvent::ConnArrived) => (
            ListenerState::Running,
            ListenerCommand::HandleConnection,
        ),
        (ListenerState::Running, ListenerEvent::StopSignal) => (
            ListenerState::Stopping,
            ListenerCommand::DrainConnections,
        ),
        (ListenerState::Running, _) => (ListenerState::Running, ListenerCommand::Ignore),
        (ListenerState::Stopping, ListenerEvent::ConnArrived) => (
            ListenerState::Stopping,
            ListenerCommand::RefuseConnection,
        ),
        (ListenerState::Stopping, ListenerEvent::Drained) => (
            ListenerState::Stopped,
            ListenerCommand::Finish,
        ),
        (ListenerState::Stopping, _) => (ListenerState::Stopping, ListenerCommand::Ignore),
        (ListenerState::Stopped, _) => (ListenerState::Stopped, ListenerCommand::Ignore),
    }
}

/// A listener whose bind failed never reaches `Running`: the only step out
/// of `Starting` on a bind failure lands in `Stopped` and reports the
/// failure.
pub proof fn lemma_bind_failure_never_runs()
    ensures
        spec_listener_step(ListenerState::Starting, ListenerEvent::BindFail).0
            == ListenerState::Stopped,
        spec_listener_step(ListenerState::Starting, ListenerEvent::BindFail).1
            == ListenerCommand::ReportBindFailure,
{
}

/// Once a stop signal is honoured, no later event ever asks the task to
/// handle a new connection: connections are refused while draining, and a
/// stopped listener ignores everything.
pub proof fn lemma_no_accept_after_stop(s: ListenerState, e: ListenerEvent)
    requires
        s == ListenerState::Stopping || s == ListenerState::Stopped,
    ensures
        spec_listener_step(s, e).1 != ListenerCommand::HandleConnection,
        spec_listener_step(s, e).1 != ListenerCommand::AcceptConnections,
        spec_listener_step(s, e).0 == ListenerState::Stopping || spec_listener_step(s, e).0
            == ListenerState::Stopped,
{
}

/// `Stopped` is terminal: every event leaves it in place and asks nothing.
pub proof fn lemma_stopped_is_terminal(e: ListenerEvent)
    ensures
        spec_listener_step(ListenerState::Stopped, e) == (
            ListenerState::Stopped,
            ListenerCommand::Ignore,
        ),
{
}

} // verus!
