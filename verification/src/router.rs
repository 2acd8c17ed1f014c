use std::collections::HashMap;
use vstd::prelude::*;

use crate::types::DocumentId;

verus! {

/// The documents that are open, each with the handle through which sessions
/// reach it.
pub struct DocumentTable<H> {
    docs: HashMap<DocumentId, H>,
}

impl<H> View for DocumentTable<H> {
    type V = Map<DocumentId, H>;

    closed spec fn view(&self) -> Map<DocumentId, H> {
        self.docs@
    }
}

impl<H> DocumentTable<H> {
    /// A table with no open document.
    pub fn new() -> (table: Self)
        ensures
            table@ == Map::<DocumentId, H>::empty(),
    {
        DocumentTable { docs: HashMap::new() }
    }

    /// The handle of the document `doc_id`, if it is open.
    pub fn lookup(&self, doc_id: DocumentId) -> (found: Option<&H>)
        ensures
            match found {
                Some(handle) => self@.contains_key(doc_id) && *handle == self@[doc_id],
                None => !self@.contains_key(doc_id),
            },
    {
        self.docs.get(&doc_id)
    }

    /// Records `handle` as the handle of the document `doc_id`, in place of
    /// any earlier one.
    pub fn register(&mut self, doc_id: DocumentId, handle: H)
        ensures
            final(self)@ == old(self)@.insert(doc_id, handle),
    {
        self.docs.insert(doc_id, handle);
    }
}

/// A lookup after a registration finds the handle just registered, and the
/// registration leaves every other document as it was.
pub proof fn lemma_lookup_after_register<H>(
    table: Map<DocumentId, H>,
    doc_id: DocumentId,
    handle: H,
    other: DocumentId,
)
    ensures
        table.insert(doc_id, handle).contains_key(doc_id),
        table.insert(doc_id, handle)[doc_id] == handle,
        other != doc_id ==> (table.insert(doc_id, handle).contains_key(other) == table.contains_key(
            other,
        ) && (table.contains_key(other) ==> table.insert(doc_id, handle)[other] == table[other])),
{
}

} // verus!
