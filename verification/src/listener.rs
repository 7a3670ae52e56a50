//! What a listener decides after each event on its socket.
//!
//! The listener binds once and then accepts for as long as the process
//! lives.  The caller performs the bind and the accepts and reports each
//! event here; this module says what to do next.

use vstd::prelude::*;

verus! {

/// Something that happened on the listening socket.
#[derive(Clone, Copy, Debug, PartialEq, Eq, Structural)]
pub enum ListenerEvent {
    /// The socket could not be bound to its address.
    BindFailed,
    /// An inbound connection was accepted.
    Accepted,
    /// An accept failed.
    AcceptFailed,
}

/// What the listener does next.
#[derive(Clone, Copy, Debug, PartialEq, Eq, Structural)]
pub enum ListenerAction {
    /// Give up: without a bound socket there is nothing to accept on.
    Terminate,
    /// Start a handler for the new connection, do not wait for it, and accept
    /// the next connection.
    SpawnHandler,
    /// Report the failure and accept the next connection.
    KeepListening,
}

/// The action that follows an event.
///
/// Only a failed bind ends the listener.  A failed accept is reported and
/// never ends it, and an accepted connection is handed to a handler of its
/// own while the listener goes on accepting.
pub open spec fn listener_action(event: ListenerEvent) -> ListenerAction {
    match event {
        ListenerEvent::BindFailed => ListenerAction::Terminate,
        ListenerEvent::Accepted => ListenerAction::SpawnHandler,
        ListenerEvent::AcceptFailed => ListenerAction::KeepListening,
    }
}

/// Decides what the listener does after `event`.
pub fn on_listener_event(event: ListenerEvent) -> (action: ListenerAction)
    ensures
        action == listener_action(event),
        action == ListenerAction::Terminate <==> event == ListenerEvent::BindFailed,
{
    match event {
        ListenerEvent::BindFailed => ListenerAction::Terminate,
        ListenerEvent::Accepted => ListenerAction::SpawnHandler,
        ListenerEvent::AcceptFailed => ListenerAction::KeepListening,
    }
}

} // verus!
