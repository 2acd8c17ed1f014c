# collab_doc

The server side of a collaborative text editor.

- `src/` is the verified library:
  - `document/lamport.rs`: the Lamport clock that stamps edits, with the laws
    that its times strictly increase and pass every request's time;
  - `document/crdt.rs`: the document, a replicated growable array whose nodes
    are kept forever (a delete sets a tombstone), with its invariant and the
    laws that its operations commute, and `apply_op`, which applies an edit;
  - `session.rs`: what a client session does on each event;
  - `router.rs`: the table of open documents;
  - `types.rs`: node ids, operations, nodes and broadcast messages.
- `app/` is the server around it: axum WebSockets, tokio channels and tasks,
  the MongoDB repository, and the serde forms of the library's types.
- `tests/` runs the library on concrete values.
