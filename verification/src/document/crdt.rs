use std::collections::BTreeMap;
use std::collections::BTreeSet;
use vstd::prelude::*;

use crate::document::lamport::next_time;
use crate::document::lamport::Lamport;
use crate::types::DocumentId;
use crate::types::Node;
use crate::types::NodeId;
use crate::types::Op;

verus! {

/// The pair of integers under which a node is stored and ordered.
pub open spec fn key_of(id: NodeId) -> (u64, u64) {
    (id.user, id.lamport_id)
}

/// The stored form of a parent reference.
pub open spec fn parent_key(p: Option<NodeId>) -> Option<(u64, u64)> {
    match p {
        Some(id) => Some(key_of(id)),
        None => None,
    }
}

/// The children recorded under `parent`, the empty set when nothing is.
pub open spec fn child_set(children: Map<Option<NodeId>, Set<NodeId>>, parent: Option<NodeId>) -> Set<
    NodeId,
> {
    if children.contains_key(parent) {
        children[parent]
    } else {
        Set::empty()
    }
}

/// The invariant of a document's state: each node is stored under its own
/// id and listed among the children of its parent, and every listed child
/// is a stored node.
pub open spec fn consistent(
    nodes: Map<NodeId, Node>,
    children: Map<Option<NodeId>, Set<NodeId>>,
) -> bool {
    &&& forall|id: NodeId| #[trigger] nodes.contains_key(id) ==> nodes[id].id == id
    &&& forall|id: NodeId| #[trigger]
        nodes.contains_key(id) ==> child_set(children, nodes[id].parent).contains(id)
    &&& forall|p: Option<NodeId>, id: NodeId| #[trigger]
        child_set(children, p).contains(id) ==> nodes.contains_key(id)
}

/// The nodes after `node` is inserted.
pub open spec fn nodes_after_insert(nodes: Map<NodeId, Node>, node: Node) -> Map<NodeId, Node> {
    nodes.insert(node.id, node)
}

/// The children after `node` is inserted: its id joins the children of its
/// parent.
pub open spec fn children_after_insert(
    children: Map<Option<NodeId>, Set<NodeId>>,
    node: Node,
) -> Map<Option<NodeId>, Set<NodeId>> {
    children.insert(node.parent, child_set(children, node.parent).insert(node.id))
}

/// The nodes after `id` is deleted: the node, if there is one, keeps its
/// place and gets a tombstone.
pub open spec fn nodes_after_delete(nodes: Map<NodeId, Node>, id: NodeId) -> Map<NodeId, Node> {
    if nodes.contains_key(id) {
        nodes.insert(
            id,
            Node { id: nodes[id].id, parent: nodes[id].parent, content: nodes[id].content, tombstone: true },
        )
    } else {
        nodes
    }
}

/// Inserting a node keeps a consistent state consistent.
pub proof fn lemma_insert_keeps_consistent(
    nodes: Map<NodeId, Node>,
    children: Map<Option<NodeId>, Set<NodeId>>,
    node: Node,
)
    requires
        consistent(nodes, children),
    ensures
        consistent(nodes_after_insert(nodes, node), children_after_insert(children, node)),
{
    let n2 = nodes_after_insert(nodes, node);
    let c2 = children_after_insert(children, node);
    assert forall|p: Option<NodeId>, id: NodeId| #[trigger] child_set(c2, p).contains(id)
        implies n2.contains_key(id) by {
        if p != node.parent {
            assert(child_set(c2, p) == child_set(children, p));
        }
    }
    assert forall|id: NodeId| #[trigger] n2.contains_key(id) implies child_set(
        c2,
        n2[id].parent,
    ).contains(id) by {
        if id != node.id {
            assert(child_set(children, nodes[id].parent).contains(id));
        }
    }
}

/// Deleting a node keeps a consistent state consistent.
pub proof fn lemma_delete_keeps_consistent(
    nodes: Map<NodeId, Node>,
    children: Map<Option<NodeId>, Set<NodeId>>,
    id: NodeId,
)
    requires
        consistent(nodes, children),
    ensures
        consistent(nodes_after_delete(nodes, id), children),
{
    let n2 = nodes_after_delete(nodes, id);
    assert forall|x: NodeId| #[trigger] n2.contains_key(x) implies child_set(
        children,
        n2[x].parent,
    ).contains(x) by {
        assert(nodes.contains_key(x));
        assert(n2[x].parent == nodes[x].parent);
    }
}

/// Deleting a node twice is the same as deleting it once.
pub proof fn lemma_delete_idempotent(nodes: Map<NodeId, Node>, id: NodeId)
    ensures
        nodes_after_delete(nodes_after_delete(nodes, id), id) == nodes_after_delete(nodes, id),
{
    assert(nodes_after_delete(nodes_after_delete(nodes, id), id) =~= nodes_after_delete(nodes, id));
}

/// Two deletes give the same nodes in either order.
pub proof fn lemma_deletes_commute(nodes: Map<NodeId, Node>, a: NodeId, b: NodeId)
    ensures
        nodes_after_delete(nodes_after_delete(nodes, a), b) == nodes_after_delete(
            nodes_after_delete(nodes, b),
            a,
        ),
{
    assert(nodes_after_delete(nodes_after_delete(nodes, a), b) =~= nodes_after_delete(
        nodes_after_delete(nodes, b),
        a,
    ));
}

/// Two inserts of nodes with different ids give the same state in either
/// order.
pub proof fn lemma_inserts_commute(
    nodes: Map<NodeId, Node>,
    children: Map<Option<NodeId>, Set<NodeId>>,
    x: Node,
    y: Node,
)
    requires
        x.id != y.id,
    ensures
        nodes_after_insert(nodes_after_insert(nodes, x), y) == nodes_after_insert(
            nodes_after_insert(nodes, y),
            x,
        ),
        children_after_insert(children_after_insert(children, x), y) == children_after_insert(
            children_after_insert(children, y),
            x,
        ),
{
    assert(nodes_after_insert(nodes_after_insert(nodes, x), y) =~= nodes_after_insert(
        nodes_after_insert(nodes, y),
        x,
    ));
    let xy = children_after_insert(children_after_insert(children, x), y);
    let yx = children_after_insert(children_after_insert(children, y), x);
    assert forall|p: Option<NodeId>| xy.contains_key(p) implies #[trigger] xy[p] =~= yx[p] by {
    }
    assert(xy =~= yx);
}

/// An insert and a delete of a different node give the same nodes in either
/// order.
pub proof fn lemma_insert_delete_commute(nodes: Map<NodeId, Node>, x: Node, id: NodeId)
    requires
        x.id != id,
    ensures
        nodes_after_delete(nodes_after_insert(nodes, x), id) == nodes_after_insert(
            nodes_after_delete(nodes, id),
            x,
        ),
{
    assert(nodes_after_delete(nodes_after_insert(nodes, x), id) =~= nodes_after_insert(
        nodes_after_delete(nodes, id),
        x,
    ));
}

/// A delete removes no node and changes no node but the one deleted, whose
/// tombstone it sets; a tombstone, once set, stays set.
pub proof fn lemma_delete_only_marks(nodes: Map<NodeId, Node>, id: NodeId)
    ensures
        nodes_after_delete(nodes, id).dom() == nodes.dom(),
        forall|x: NodeId| #[trigger]
            nodes.contains_key(x) && x != id ==> nodes_after_delete(nodes, id)[x] == nodes[x],
        nodes.contains_key(id) ==> {
            let marked = nodes_after_delete(nodes, id)[id];
            &&& marked.tombstone
            &&& marked.id == nodes[id].id
            &&& marked.parent == nodes[id].parent
            &&& marked.content == nodes[id].content
        },
        forall|x: NodeId| #[trigger]
            nodes.contains_key(x) && nodes[x].tombstone ==> nodes_after_delete(nodes, id)[x].tombstone,
{
    assert(nodes_after_delete(nodes, id).dom() =~= nodes.dom());
}

/// The node an insert creates carries the inserting user, the stamped time,
/// the requested parent and the typed character, and is live.
pub proof fn lemma_inserted_node_fields(user: u64, content: char, parent: Option<NodeId>, time: u64)
    ensures
        inserted_node(user, content, parent, time).id.user == user,
        inserted_node(user, content, parent, time).id.lamport_id == time,
        inserted_node(user, content, parent, time).parent == parent,
        inserted_node(user, content, parent, time).content == content,
        !inserted_node(user, content, parent, time).tombstone,
{
}

/// An insert can be stamped exactly when neither the clock nor the request's
/// time is already at `u64::MAX`; a delete always can.
pub proof fn lemma_can_stamp_exactly(op: Op, clock: nat)
    requires
        clock <= u64::MAX,
    ensures
        match op {
            Op::Insert { request_time, .. } => can_stamp(op, clock) <==> (clock < u64::MAX
                && request_time < u64::MAX),
            Op::Delete { .. } => can_stamp(op, clock),
        },
{
}

/// An insert stores the node under its id and changes no other node.
pub proof fn lemma_insert_stores_only_the_node(nodes: Map<NodeId, Node>, node: Node, other: NodeId)
    ensures
        nodes_after_insert(nodes, node).contains_key(node.id),
        nodes_after_insert(nodes, node)[node.id] == node,
        other != node.id ==> (nodes_after_insert(nodes, node).contains_key(other)
            == nodes.contains_key(other) && (nodes.contains_key(other) ==> nodes_after_insert(
            nodes,
            node,
        )[other] == nodes[other])),
{
}

/// An insert lists the node among the children of its parent and of no other
/// node; so a node whose parent is not itself is never listed among its own
/// children unless it already was.
pub proof fn lemma_insert_links_only_under_parent(
    children: Map<Option<NodeId>, Set<NodeId>>,
    node: Node,
)
    ensures
        child_set(children_after_insert(children, node), node.parent) == child_set(
            children,
            node.parent,
        ).insert(node.id),
        forall|p: Option<NodeId>|
            p != node.parent ==> #[trigger] child_set(children_after_insert(children, node), p)
                == child_set(children, p),
        node.parent != Some(node.id) && !child_set(children, Some(node.id)).contains(node.id)
            ==> !child_set(children_after_insert(children, node), Some(node.id)).contains(node.id),
        forall|q: NodeId|
            q != node.id ==> (#[trigger] child_set(children_after_insert(children, node), Some(q)).contains(q)
                == child_set(children, Some(q)).contains(q)),
{
}

/// The message with which a delete operation is refused as a source of a new
/// node.
pub open spec fn delete_refused_message() -> Seq<char> {
    "Delete operation not supported to create new node"@
}

/// The node that an insert by `user` of `content` after `parent` creates
/// when the clock stamps it `time`.
pub open spec fn inserted_node(user: u64, content: char, parent: Option<NodeId>, time: u64) -> Node {
    Node { id: NodeId { user, lamport_id: time }, parent, content, tombstone: false }
}

/// Whether the clock can stamp `op` without running past `u64::MAX`.
pub open spec fn can_stamp(op: Op, clock: nat) -> bool {
    match op {
        Op::Insert { request_time, .. } => next_time(clock as int, request_time as int) <= u64::MAX,
        Op::Delete { .. } => true,
    }
}

/// Builds the node that an insert operation describes, stamping it with the
/// next time of `lamport`. A delete operation creates no node and is refused.
pub fn node_from_op(op: &Op, lamport: &mut Lamport) -> (result: Result<Node, String>)
    requires
        can_stamp(*op, old(lamport).value()),
    ensures
        match *op {
            Op::Insert { request_time, user, content, parent } => {
                let time = next_time(old(lamport).value() as int, request_time as int);
                &&& final(lamport).value() == time
                &&& result == Ok::<Node, String>(inserted_node(user, content, parent, time as u64))
                &&& result is Ok
                &&& result->Ok_0.id.user == user
                &&& result->Ok_0.id.lamport_id == final(lamport).value()
                &&& result->Ok_0.parent == parent
                &&& result->Ok_0.content == content
                &&& !result->Ok_0.tombstone
            },
            Op::Delete { .. } => {
                &&& final(lamport).value() == old(lamport).value()
                &&& result is Err
                &&& result->Err_0@ == delete_refused_message()
            },
        },
{
    match op {
        Op::Insert { request_time, user, content, parent } => {
            let lamport_id = lamport.tick(*request_time);
            let id = NodeId { user: *user, lamport_id };
            Ok(Node { id, parent: *parent, content: *content, tombstone: false })
        },
        Op::Delete { id: _ } => {
            let message = "Delete operation not supported to create new node".to_owned();
            proof {
                reveal_strlit("Delete operation not supported to create new node");
            }
            Err(message)
        },
    }
}

/// The state of one document: every node ever inserted, each reachable from
/// the node it was inserted after.
pub struct Document {
    doc_id: DocumentId,
    ops: Vec<Op>,
    lamport: Lamport,
    nodes: BTreeMap<(u64, u64), Node>,
    children: BTreeMap<Option<(u64, u64)>, BTreeSet<(u64, u64)>>,
}

impl Document {
    /// The id of the document.
    pub closed spec fn id(&self) -> DocumentId {
        self.doc_id
    }

    /// The value of the document's clock.
    pub closed spec fn clock(&self) -> nat {
        self.lamport.value()
    }

    /// The operations applied to the document, in order.
    pub closed spec fn log(&self) -> Seq<Op> {
        self.ops@
    }

    /// The stored nodes, by id.
    pub closed spec fn nodes_view(&self) -> Map<NodeId, Node> {
        Map::new(
            |id: NodeId| self.nodes@.contains_key(key_of(id)),
            |id: NodeId| self.nodes@[key_of(id)],
        )
    }

    /// The children of each parent that has any recorded.
    pub closed spec fn children_view(&self) -> Map<Option<NodeId>, Set<NodeId>> {
        Map::new(
            |p: Option<NodeId>| self.children@.contains_key(parent_key(p)),
            |p: Option<NodeId>|
                Set::new(|id: NodeId| self.children@[parent_key(p)]@.contains(key_of(id))),
        )
    }

    /// The document's invariant.
    pub open spec fn wf(&self) -> bool {
        consistent(self.nodes_view(), self.children_view())
    }

    /// An empty document.
    pub fn new(doc_id: DocumentId) -> (doc: Self)
        ensures
            doc.wf(),
            doc.id() == doc_id,
            doc.clock() == 0,
            doc.log() == Seq::<Op>::empty(),
            doc.nodes_view() == Map::<NodeId, Node>::empty(),
            doc.children_view() == Map::<Option<NodeId>, Set<NodeId>>::empty(),
    {
        let doc = Document {
            doc_id,
            ops: Vec::new(),
            lamport: Lamport::new(),
            nodes: BTreeMap::new(),
            children: BTreeMap::new(),
        };
        assert(doc.nodes_view() =~= Map::<NodeId, Node>::empty());
        assert(doc.children_view() =~= Map::<Option<NodeId>, Set<NodeId>>::empty());
        doc
    }

    /// Stores `node` under its id and records it among the children of its
    /// parent. A node already stored under that id is replaced.
    pub fn insert(&mut self, node: &Node)
        requires
            old(self).wf(),
        ensures
            final(self).wf(),
            final(self).nodes_view() == nodes_after_insert(old(self).nodes_view(), *node),
            final(self).children_view() == children_after_insert(old(self).children_view(), *node),
            final(self).nodes_view().contains_key(node.id),
            final(self).nodes_view()[node.id] == *node,
            forall|other: NodeId|
                other != node.id ==> #[trigger] final(self).nodes_view().contains_key(other)
                    == old(self).nodes_view().contains_key(other) && (old(
                    self,
                ).nodes_view().contains_key(other) ==> final(self).nodes_view()[other] == old(
                    self,
                ).nodes_view()[other]),
            child_set(final(self).children_view(), node.parent) == child_set(
                old(self).children_view(),
                node.parent,
            ).insert(node.id),
            forall|p: Option<NodeId>|
                p != node.parent ==> #[trigger] child_set(final(self).children_view(), p)
                    == child_set(old(self).children_view(), p),
            final(self).id() == old(self).id(),
            final(self).clock() == old(self).clock(),
            final(self).log() == old(self).log(),
    {
        let ghost old_nodes = self.nodes_view();
        let ghost old_children = self.children_view();
        let id_key = (node.id.user, node.id.lamport_id);
        let parent_key = match node.parent {
            Some(p) => Some((p.user, p.lamport_id)),
            None => None,
        };
        self.nodes.insert(id_key, *node);
        let mut siblings = match self.children.remove(&parent_key) {
            Some(set) => set,
            None => BTreeSet::new(),
        };
        siblings.insert(id_key);
        self.children.insert(parent_key, siblings);
        proof {
            assert(self.nodes_view() =~= nodes_after_insert(old_nodes, *node));
            let new_children = children_after_insert(old_children, *node);
            assert forall|p: Option<NodeId>| #[trigger] self.children_view().contains_key(p)
                <==> new_children.contains_key(p) by {
            }
            assert forall|p: Option<NodeId>| self.children_view().contains_key(p) implies
                #[trigger] self.children_view()[p] =~= new_children[p] by {
            }
            assert(self.children_view() =~= new_children);
            lemma_insert_keeps_consistent(old_nodes, old_children, *node);
        }
    }

    /// Gives the node `id`, if it is stored, a tombstone. Nothing is removed.
    pub fn delete(&mut self, id: &NodeId)
        requires
            old(self).wf(),
        ensures
            final(self).wf(),
            final(self).nodes_view() == nodes_after_delete(old(self).nodes_view(), *id),
            final(self).children_view() == old(self).children_view(),
            final(self).id() == old(self).id(),
            final(self).clock() == old(self).clock(),
            final(self).log() == old(self).log(),
    {
        let ghost old_nodes = self.nodes_view();
        let ghost old_children = self.children_view();
        let id_key = (id.user, id.lamport_id);
        match self.nodes.get(&id_key) {
            Some(found) => {
                let mut node = *found;
                node.tombstone = true;
                self.nodes.insert(id_key, node);
            },
            None => {},
        }
        proof {
            assert(self.nodes_view() =~= nodes_after_delete(old_nodes, *id));
            assert(self.children_view() =~= old_children);
            lemma_delete_keeps_consistent(old_nodes, old_children, *id);
        }
    }
    /// The id of the document.
    pub fn doc_id(&self) -> (doc_id: DocumentId)
        ensures
            doc_id == self.id(),
    {
        self.doc_id
    }

    /// The node stored under `id`, if any.
    pub fn node(&self, id: &NodeId) -> (found: Option<Node>)
        ensures
            match found {
                Some(node) => self.nodes_view().contains_key(*id) && node == self.nodes_view()[*id],
                None => !self.nodes_view().contains_key(*id),
            },
    {
        match self.nodes.get(&(id.user, id.lamport_id)) {
            Some(node) => Some(*node),
            None => None,
        }
    }

    /// Whether `id` is recorded among the children of `parent`.
    pub fn is_child(&self, parent: &Option<NodeId>, id: &NodeId) -> (listed: bool)
        ensures
            listed == child_set(self.children_view(), *parent).contains(*id),
    {
        let parent_key = match parent {
            Some(p) => Some((p.user, p.lamport_id)),
            None => None,
        };
        match self.children.get(&parent_key) {
            Some(set) => set.contains(&(id.user, id.lamport_id)),
            None => false,
        }
    }
    /// Whether the document's clock can stamp `op` without running past
    /// `u64::MAX`.
    pub fn can_apply(&self, op: &Op) -> (fits: bool)
        ensures
            fits == can_stamp(*op, self.clock()),
            match *op {
                Op::Insert { request_time, .. } => fits <==> (self.clock() < u64::MAX
                    && request_time < u64::MAX),
                Op::Delete { .. } => fits,
            },
    {
        match op {
            Op::Insert { request_time, .. } => {
                let current = self.lamport.now();
                if current >= *request_time {
                    current < u64::MAX
                } else {
                    *request_time < u64::MAX
                }
            },
            Op::Delete { .. } => true,
        }
    }

    /// Applies an edit: an insert is stamped with the document's clock and
    /// its node stored; a delete gives its node a tombstone. Either way the
    /// operation is appended to the document's log.
    pub fn apply_op(&mut self, op: &Op)
        requires
            old(self).wf(),
            can_stamp(*op, old(self).clock()),
        ensures
            final(self).wf(),
            final(self).id() == old(self).id(),
            final(self).log() == old(self).log().push(*op),
            match *op {
                Op::Insert { request_time, user, content, parent } => {
                    let time = next_time(old(self).clock() as int, request_time as int);
                    let node = inserted_node(user, content, parent, time as u64);
                    &&& final(self).clock() == time
                    &&& final(self).nodes_view() == nodes_after_insert(old(self).nodes_view(), node)
                    &&& final(self).children_view() == children_after_insert(
                        old(self).children_view(),
                        node,
                    )
                    &&& final(self).nodes_view().contains_key(
                        NodeId { user, lamport_id: time as u64 },
                    )
                    &&& final(self).nodes_view()[NodeId { user, lamport_id: time as u64 }].id
                        == NodeId { user, lamport_id: time as u64 }
                    &&& final(self).nodes_view()[NodeId { user, lamport_id: time as u64 }].parent
                        == parent
                    &&& final(self).nodes_view()[NodeId { user, lamport_id: time as u64 }].content
                        == content
                    &&& !final(self).nodes_view()[NodeId { user, lamport_id: time as u64 }].tombstone
                    &&& child_set(final(self).children_view(), parent).contains(
                        NodeId { user, lamport_id: time as u64 },
                    )
                    &&& forall|p: Option<NodeId>|
                        p != parent ==> #[trigger] child_set(final(self).children_view(), p)
                            == child_set(old(self).children_view(), p)
                },
                Op::Delete { id } => {
                    &&& final(self).clock() == old(self).clock()
                    &&& final(self).nodes_view() == nodes_after_delete(old(self).nodes_view(), id)
                    &&& final(self).children_view() == old(self).children_view()
                },
            },
    {
        match op {
            Op::Insert { .. } => {
                let made = node_from_op(op, &mut self.lamport);
                match made {
                    Ok(node) => self.insert(&node),
                    Err(_) => {},
                }
            },
            Op::Delete { id } => {
                self.delete(id);
            },
        }
        self.ops.push(*op);
    }
}

} // verus!
