//! Server-side core of a collaborative text editor: a Lamport clock that
//! stamps edits, and a replicated-growable-array style document whose nodes
//! are never removed, only marked with a tombstone.

pub mod document;
pub mod router;
pub mod session;
pub mod types;
