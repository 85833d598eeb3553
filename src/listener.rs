//! The decisions of a port listener: `Bound → Accepting → Stopped`.
//!
//! The caller binds, accepts and handshakes, reports each outcome as an
//! event, and performs the action that `step` returns.

use vstd::prelude::*;

verus! {

/// Where a listener is in its life.
#[derive(Debug, Clone, Copy, PartialEq, Eq, Structural)]
pub enum ListenerState {
    /// Created, its port not yet bound.
    Bound,
    /// Bound and accepting connections.
    Accepting,
    /// Ended; it accepts nothing more.
    Stopped,
}

/// What happened to a listener.
#[derive(Debug, Clone, Copy, PartialEq, Eq, Structural)]
pub enum ListenerEvent {
    /// The port was bound.
    BindSucceeded,
    /// The port could not be bound.
    BindFailed,
    /// The shutdown signal arrived.
    ShutdownSignal,
    /// A connection was accepted.
    ConnectionAccepted,
    /// Accepting a connection failed.
    ConnectionFailed,
}

/// What the caller does next.
#[derive(Debug, Clone, Copy, PartialEq, Eq, Structural)]
pub enum ListenerAction {
    /// Keep waiting for the next event.
    Continue,
    /// Start an independent forwarder for the accepted connection.
    SpawnForwarder,
    /// Log the failure of that one connection and keep accepting.
    LogAndContinue,
    /// Log why the listener could not start, and end it.
    LogAndExit,
    /// End the listener task.
    Exit,
}

/// The listener's next state and action on an event: a bind failure ends
/// only this listener; a shutdown signal ends it from any state; while
/// accepting, every accepted connection is forwarded and every failed one
/// is logged without ending the listener; a stopped listener stays stopped.
pub open spec fn listener_step(s: ListenerState, e: ListenerEvent) -> (ListenerState, ListenerAction) {
    match s {
        ListenerState::Stopped => (ListenerState::Stopped, ListenerAction::Exit),
        ListenerState::Bound => match e {
            ListenerEvent::BindSucceeded => (ListenerState::Accepting, ListenerAction::Continue),
            ListenerEvent::BindFailed => (ListenerState::Stopped, ListenerAction::LogAndExit),
            ListenerEvent::ShutdownSignal => (ListenerState::Stopped, ListenerAction::Exit),
            _ => (ListenerState::Bound, ListenerAction::Continue),
        },
        ListenerState::Accepting => match e {
            ListenerEvent::ShutdownSignal => (ListenerState::Stopped, ListenerAction::Exit),
            ListenerEvent::ConnectionAccepted => (
                ListenerState::Accepting,
                ListenerAction::SpawnForwarder,
            ),
            ListenerEvent::ConnectionFailed => (
                ListenerState::Accepting,
                ListenerAction::LogAndContinue,
            ),
            _ => (ListenerState::Accepting, ListenerAction::Continue),
        },
    }
}

/// The listener's next state and action on an event.
pub fn step(s: ListenerState, e: ListenerEvent) -> (r: (ListenerState, ListenerAction))
    ensures
        r == listener_step(s, e),
{
    match s {
        ListenerState::Stopped => (ListenerState::Stopped, ListenerAction::Exit),
        ListenerState::Bound => match e {
            ListenerEvent::BindSucceeded => (ListenerState::Accepting, ListenerAction::Continue),
            ListenerEvent::BindFailed => (ListenerState::Stopped, ListenerAction::LogAndExit),
            ListenerEvent::ShutdownSignal => (ListenerState::Stopped, ListenerAction::Exit),
            _ => (ListenerState::Bound, ListenerAction::Continue),
        },
        ListenerState::Accepting => match e {
            ListenerEvent::ShutdownSignal => (ListenerState::Stopped, ListenerAction::Exit),
            ListenerEvent::ConnectionAccepted => (
                ListenerState::Accepting,
                ListenerAction::SpawnForwarder,
            ),
            ListenerEvent::ConnectionFailed => (
                ListenerState::Accepting,
                ListenerAction::LogAndContinue,
            ),
            _ => (ListenerState::Accepting, ListenerAction::Continue),
        },
    }
}

/// A listener ends exactly on a shutdown signal or a failed bind, and once
/// ended it stays ended; a failed connection never ends it.
pub proof fn lemma_listener_ends_only_by_shutdown_or_bind_failure(
    s: ListenerState,
    e: ListenerEvent,
)
    ensures
        (listener_step(s, e).0 == ListenerState::Stopped) <==> (s == ListenerState::Stopped || e
            == ListenerEvent::ShutdownSignal || (s == ListenerState::Bound && e
            == ListenerEvent::BindFailed)),
        listener_step(s, e).0 == ListenerState::Stopped ==> (listener_step(s, e).1
            == ListenerAction::Exit || listener_step(s, e).1 == ListenerAction::LogAndExit),
        e == ListenerEvent::ConnectionFailed && s == ListenerState::Accepting ==> listener_step(
            s,
            e,
        ).0 == ListenerState::Accepting,
{
}

} // verus!
