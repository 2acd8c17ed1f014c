use vstd::prelude::*;

verus! {

/// Identifies a user of the editor.
pub type UserId = u64;

/// Identifies a document.
pub type DocumentId = u64;

/// Identifies a node (one character) of a document: the user who typed it
/// and the Lamport time at which the document stamped it.
#[derive(Clone, Copy, Debug, PartialEq, Eq, Structural, PartialOrd, Ord, Hash)]
pub struct NodeId {
    pub user: UserId,
    pub lamport_id: u64,
}

/// An edit sent by a client.
#[derive(Clone, Copy, Debug, PartialEq, Eq, Structural)]
pub enum Op {
    /// Insert `content` right after the node `parent` (at the start of the
    /// document when `parent` is `None`). `request_time` is the client's
    /// Lamport time when it made the edit.
    Insert { request_time: u64, user: UserId, content: char, parent: Option<NodeId> },
    /// Delete the node `id`.
    Delete { id: NodeId },
}

/// One character of a document, as the document stores it.
#[derive(Clone, Copy, Debug, PartialEq, Eq, Structural)]
pub struct Node {
    pub id: NodeId,
    /// The node this one was inserted after (`None`: the start).
    pub parent: Option<NodeId>,
    pub content: char,
    /// Set once the node is deleted; the node itself stays.
    pub tombstone: bool,
}

/// A message that a document sends to every session connected to it.
#[derive(Clone, Debug)]
pub enum ClientMsg {
    OpApplied(Op),
    UserJoined(UserId),
    UserLeft(UserId),
    Error(String),
}

} // verus!
