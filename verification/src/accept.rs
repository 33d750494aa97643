//! Decisions of the server accept loops and of the per-stream
//! dispatcher.
//!
//! The outer loop accepts inbound connections until the endpoint shuts
//! down, which is always reported to the caller as an anomaly. Each
//! accepted connection gets an independent handler that accepts inbound
//! bidirectional streams until the connection closes; a transient
//! accept failure never ends that loop. Each accepted stream gets an
//! independent handler that reads messages; a message that fails to
//! deserialize is discarded and never ends the stream's session. The
//! loops themselves live with the transport; the decisions they take
//! each turn are here.

use vstd::prelude::*;

verus! {

/// What the outer loop does after one accept of the endpoint.
#[derive(Clone, Copy, PartialEq, Eq, Structural, Debug)]
pub enum ServerStep {
    /// Spawn an independent handler for the new connection and keep
    /// accepting.
    SpawnConnectionHandler,
    /// The endpoint is shut down — no connection will ever arrive
    /// again. Always reported to the caller as an anomalous "server
    /// exited" failure, never a silent end.
    ReportServerExit,
}

/// How the outer loop answers one accept outcome.
pub open spec fn spec_server_step(connection_accepted: bool) -> ServerStep {
    if connection_accepted {
        ServerStep::SpawnConnectionHandler
    } else {
        ServerStep::ReportServerExit
    }
}

/// Decides one turn of the outer connection-accept loop.
pub fn server_step(connection_accepted: bool) -> (r: ServerStep)
    ensures
        r == spec_server_step(connection_accepted),
{
    if connection_accepted {
        ServerStep::SpawnConnectionHandler
    } else {
        ServerStep::ReportServerExit
    }
}

/// What one turn of a per-connection loop observed.
#[derive(Clone, Copy, PartialEq, Eq, Structural, Debug)]
pub enum ConnectionEvent {
    /// The connection reports a close reason: a clean end.
    Closed,
    /// An inbound bidirectional stream was accepted.
    StreamAccepted,
    /// Accepting a stream failed because the connection was closed
    /// locally.
    AcceptFailedLocallyClosed,
    /// Accepting a stream failed for any other, transient reason.
    AcceptFailedTransient,
}

/// What the per-connection loop does in response.
#[derive(Clone, Copy, PartialEq, Eq, Structural, Debug)]
pub enum ConnectionStep {
    /// Spawn an independent handler for the new stream and keep
    /// accepting at once: streams are concurrent and unordered.
    SpawnStreamHandler,
    /// Ignore the failure and keep accepting: one failed accept never
    /// tears the loop down.
    ContinueAccepting,
    /// Leave the loop: the connection is done.
    ExitLoop,
}

/// How the per-connection loop answers one event.
pub open spec fn spec_connection_step(event: ConnectionEvent) -> ConnectionStep {
    match event {
        ConnectionEvent::Closed => ConnectionStep::ExitLoop,
        ConnectionEvent::StreamAccepted => ConnectionStep::SpawnStreamHandler,
        ConnectionEvent::AcceptFailedLocallyClosed => ConnectionStep::ExitLoop,
        ConnectionEvent::AcceptFailedTransient => ConnectionStep::ContinueAccepting,
    }
}

/// Whether a step keeps the per-connection loop accepting.
pub open spec fn spec_step_continues(step: ConnectionStep) -> bool {
    match step {
        ConnectionStep::ExitLoop => false,
        _ => true,
    }
}

/// Decides one turn of the per-connection stream-accept loop.
pub fn connection_step(event: ConnectionEvent) -> (r: ConnectionStep)
    ensures
        r == spec_connection_step(event),
{
    match event {
        ConnectionEvent::Closed => ConnectionStep::ExitLoop,
        ConnectionEvent::StreamAccepted => ConnectionStep::SpawnStreamHandler,
        ConnectionEvent::AcceptFailedLocallyClosed => ConnectionStep::ExitLoop,
        ConnectionEvent::AcceptFailedTransient => ConnectionStep::ContinueAccepting,
    }
}

/// The loop is still accepting when it reaches event `j`: no earlier
/// event made it exit.
pub open spec fn spec_loop_alive(events: Seq<ConnectionEvent>, j: int) -> bool {
    forall|k: int| 0 <= k < j ==> spec_step_continues(spec_connection_step(#[trigger] events[k]))
}

/// Accept-loop resilience: a transient accept failure does not end the
/// per-connection loop — a stream accepted later, with no closing event
/// in between, is still reached and handled, however many transient
/// failures precede it.
pub proof fn lemma_accept_loop_resilience(events: Seq<ConnectionEvent>, i: int, j: int)
    requires
        0 <= i < j < events.len(),
        events[i] == ConnectionEvent::AcceptFailedTransient,
        forall|k: int|
            0 <= k < j ==> #[trigger] events[k] != ConnectionEvent::Closed && events[k]
                != ConnectionEvent::AcceptFailedLocallyClosed,
        events[j] == ConnectionEvent::StreamAccepted,
    ensures
        spec_loop_alive(events, j),
        spec_connection_step(events[j]) == ConnectionStep::SpawnStreamHandler,
{
}

/// What one session turn does with a read message.
#[derive(Clone, Copy, PartialEq, Eq, Structural, Debug)]
pub enum SessionStep {
    /// Hand the deserialized request to the message dispatcher, then
    /// keep reading.
    DispatchAndContinue,
    /// Discard the undecodable message and keep reading: one bad
    /// message never ends the session.
    DiscardAndContinue,
    /// The read failed — truncated or corrupt — so the stream's session
    /// is over. Sibling streams are untouched.
    EndSession,
}

/// How a session answers one read: a failed read ends it; a complete
/// message is dispatched when it deserializes and discarded when it
/// does not, the session continuing either way.
pub open spec fn spec_session_step(read_complete: bool, deserialized: bool) -> SessionStep {
    if !read_complete {
        SessionStep::EndSession
    } else if deserialized {
        SessionStep::DispatchAndContinue
    } else {
        SessionStep::DiscardAndContinue
    }
}

/// Decides one turn of a stream's read-and-dispatch session.
pub fn session_step(read_complete: bool, deserialized: bool) -> (r: SessionStep)
    ensures
        r == spec_session_step(read_complete, deserialized),
{
    if !read_complete {
        SessionStep::EndSession
    } else if deserialized {
        SessionStep::DispatchAndContinue
    } else {
        SessionStep::DiscardAndContinue
    }
}

/// The session is still reading when it reaches turn `j`: no earlier
/// turn ended it.
pub open spec fn spec_session_alive(turns: Seq<(bool, bool)>, j: int) -> bool {
    forall|k: int|
        0 <= k < j ==> spec_session_step((#[trigger] turns[k]).0, turns[k].1)
            != SessionStep::EndSession
}

/// Fault isolation: a message that fails to deserialize does not end
/// the session — a later well-formed message on the same stream is
/// still reached and dispatched, as long as every read in between
/// completed.
pub proof fn lemma_fault_isolation(turns: Seq<(bool, bool)>, i: int, j: int)
    requires
        0 <= i < j < turns.len(),
        turns[i] == (true, false),
        forall|k: int| 0 <= k < j ==> (#[trigger] turns[k]).0,
        turns[j] == (true, true),
    ensures
        spec_session_alive(turns, j),
        spec_session_step(turns[j].0, turns[j].1) == SessionStep::DispatchAndContinue,
{
}

} // verus!
