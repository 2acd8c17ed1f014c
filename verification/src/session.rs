use vstd::prelude::*;

use crate::types::ClientMsg;
use crate::types::Op;
use crate::types::UserId;

verus! {

/// What a session, which connects one client to one document, has just
/// observed.
pub enum SessionEvent {
    /// A text frame from the client, with the operation it decodes to, or
    /// `None` when it does not decode to one.
    ClientText(Option<Op>),
    /// The client closed the connection, the socket failed or its stream
    /// ended.
    ClientGone,
    /// Any other frame from the client (ping, pong, binary).
    ClientOther,
    /// A message that the document broadcast.
    Broadcast(ClientMsg),
    /// The session fell behind the document's broadcast by this many
    /// messages.
    Lagged(u64),
    /// The document's broadcast ended: the document shut down.
    BroadcastClosed,
    /// A message could not be forwarded to the client.
    ForwardFailed,
}

/// What a session does next.
pub enum SessionAction {
    /// Send this edit, made by this user, to the document, then go on.
    Edit { user: UserId, op: Op },
    /// Forward this message to the client, then go on.
    Forward(ClientMsg),
    /// Tell the document that this user left, then end the session.
    Leave { user: UserId },
    /// Do nothing and wait for the next event.
    Wait,
    /// End the session.
    Stop,
}

/// Decides what the session of `user` does on `event`: a decoded edit goes to
/// the document, a broadcast goes to the client, a lost client (or one that
/// can no longer be written to) leaves the document, a closed broadcast ends
/// the session, and everything else is ignored.
pub fn session_step(user: UserId, event: SessionEvent) -> (action: SessionAction)
    ensures
        match event {
            SessionEvent::ClientText(Some(op)) => action == SessionAction::Edit { user, op },
            SessionEvent::ClientText(None) => action is Wait,
            SessionEvent::ClientGone => action == SessionAction::Leave { user },
            SessionEvent::ClientOther => action is Wait,
            SessionEvent::Broadcast(msg) => action == SessionAction::Forward(msg),
            SessionEvent::Lagged(_) => action is Wait,
            SessionEvent::BroadcastClosed => action is Stop,
            SessionEvent::ForwardFailed => action == SessionAction::Leave { user },
        },
{
    match event {
        SessionEvent::ClientText(Some(op)) => SessionAction::Edit { user, op },
        SessionEvent::ClientText(None) => SessionAction::Wait,
        SessionEvent::ClientGone => SessionAction::Leave { user },
        SessionEvent::ClientOther => SessionAction::Wait,
        SessionEvent::Broadcast(msg) => SessionAction::Forward(msg),
        SessionEvent::Lagged(_) => SessionAction::Wait,
        SessionEvent::BroadcastClosed => SessionAction::Stop,
        SessionEvent::ForwardFailed => SessionAction::Leave { user },
    }
}

/// Whether the session goes on after taking `action`.
pub fn continues_after(action: &SessionAction) -> (go_on: bool)
    ensures
        go_on <==> !(action is Leave || action is Stop),
{
    match action {
        SessionAction::Leave { .. } => false,
        SessionAction::Stop => false,
        _ => true,
    }
}

} // verus!
