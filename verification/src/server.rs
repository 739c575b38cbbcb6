//! The proxy server's lifecycle as a state machine: brought up once, it
//! accepts connections until told to shut down, and never comes back from
//! its terminal phase. The caller performs the binding, accepting and
//! tearing down; which step follows which is decided and verified here.

use vstd::prelude::*;

verus! {

/// The phases of the proxy server's life.
#[derive(PartialEq, Eq, Structural, Clone, Copy, Debug)]
pub enum ServerPhase {
    /// Not yet asked to run.
    Idle,
    /// Loading the certificate authority and binding the listening socket.
    Starting,
    /// Accepting connections; one independent task per connection.
    Listening,
    /// No longer accepting; connections already taken may finish.
    ShuttingDown,
    /// Terminal.
    Stopped,
}

/// What happened to the server.
#[derive(PartialEq, Eq, Structural, Clone, Copy, Debug)]
pub enum ServerEvent {
    /// The caller asked the server to run.
    StartRequested,
    /// The certificate authority is up and the socket is bound.
    Started,
    /// The certificate authority failed to load or the bind failed.
    StartFailed,
    /// The process-wide shutdown signal fired.
    ShutdownSignal,
    /// No accepted connection is left.
    Drained,
}

/// What the caller must do on entering the next phase.
#[derive(PartialEq, Eq, Structural, Clone, Copy, Debug)]
pub enum ServerAction {
    /// Load or create the certificate authority and bind the socket.
    BringUp,
    /// Run the accept loop.
    AcceptConnections,
    /// Give up: the process cannot offer a partial proxy.
    FailFatally,
    /// Stop accepting; let taken connections run out.
    StopAccepting,
    /// Nothing.
    Stay,
}

/// The transition table: what each event does in each phase. Events that a
/// phase does not expect change nothing; the terminal phase never moves.
pub open spec fn spec_server_step(phase: ServerPhase, event: ServerEvent) -> (
    ServerPhase,
    ServerAction,
) {
    match (phase, event) {
        (ServerPhase::Idle, ServerEvent::StartRequested) => (
            ServerPhase::Starting,
            ServerAction::BringUp,
        ),
        (ServerPhase::Starting, ServerEvent::Started) => (
            ServerPhase::Listening,
            ServerAction::AcceptConnections,
        ),
        (ServerPhase::Starting, ServerEvent::StartFailed) => (
            ServerPhase::Stopped,
            ServerAction::FailFatally,
        ),
        (ServerPhase::Listening, ServerEvent::ShutdownSignal) => (
            ServerPhase::ShuttingDown,
            ServerAction::StopAccepting,
        ),
        (ServerPhase::ShuttingDown, ServerEvent::Drained) => (
            ServerPhase::Stopped,
            ServerAction::Stay,
        ),
        _ => (phase, ServerAction::Stay),
    }
}

/// Take one step of the server's life.
pub fn server_step(phase: ServerPhase, event: ServerEvent) -> (r: (ServerPhase, ServerAction))
    ensures
        r == spec_server_step(phase, event),
{
    match (phase, event) {
        (ServerPhase::Idle, ServerEvent::StartRequested) => (
            ServerPhase::Starting,
            ServerAction::BringUp,
        ),
        (ServerPhase::Starting, ServerEvent::Started) => (
            ServerPhase::Listening,
            ServerAction::AcceptConnections,
        ),
        (ServerPhase::Starting, ServerEvent::StartFailed) => (
            ServerPhase::Stopped,
            ServerAction::FailFatally,
        ),
        (ServerPhase::Listening, ServerEvent::ShutdownSignal) => (
            ServerPhase::ShuttingDown,
            ServerAction::StopAccepting,
        ),
        (ServerPhase::ShuttingDown, ServerEvent::Drained) => (
            ServerPhase::Stopped,
            ServerAction::Stay,
        ),
        (p, _) => (p, ServerAction::Stay),
    }
}

/// Law: the terminal phase is terminal — no event leaves it.
pub proof fn lemma_stopped_is_terminal(event: ServerEvent)
    ensures
        spec_server_step(ServerPhase::Stopped, event).0 == ServerPhase::Stopped,
{
}

/// Law: the server only moves forward: no step returns to an earlier phase
/// of its life.
pub proof fn lemma_server_moves_forward(phase: ServerPhase, event: ServerEvent)
    ensures
        spec_phase_rank(spec_server_step(phase, event).0) >= spec_phase_rank(phase),
{
}

/// The order of phases along the server's life.
pub open spec fn spec_phase_rank(phase: ServerPhase) -> int {
    match phase {
        ServerPhase::Idle => 0,
        ServerPhase::Starting => 1,
        ServerPhase::Listening => 2,
        ServerPhase::ShuttingDown => 3,
        ServerPhase::Stopped => 4,
    }
}

} // verus!
