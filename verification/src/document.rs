pub mod crdt;
pub mod lamport;
