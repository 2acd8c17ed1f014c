use collab_doc::document::crdt::{node_from_op, Document};
use collab_doc::document::lamport::Lamport;
use collab_doc::types::{Node, NodeId, Op};

fn id(user: u64, lamport_id: u64) -> NodeId {
    NodeId { user, lamport_id }
}

fn node(user: u64, lamport_id: u64, content: char, parent: Option<NodeId>) -> Node {
    Node { id: id(user, lamport_id), parent, content, tombstone: false }
}

#[test]
fn insert_op_becomes_a_stamped_node() {
    let mut clock = Lamport::new();
    let op = Op::Insert { request_time: 4, user: 9, content: 'h', parent: None };
    let made = node_from_op(&op, &mut clock).unwrap();
    assert_eq!(made, node(9, 5, 'h', None));
    let op2 = Op::Insert { request_time: 1, user: 2, content: 'i', parent: Some(id(9, 5)) };
    let made2 = node_from_op(&op2, &mut clock).unwrap();
    assert_eq!(made2, node(2, 6, 'i', Some(id(9, 5))));
    assert_eq!(clock.tick(0), 7);
}

#[test]
fn delete_op_is_refused_and_leaves_clock_alone() {
    let mut clock = Lamport::new();
    let op = Op::Delete { id: id(1, 1) };
    let err = node_from_op(&op, &mut clock).unwrap_err();
    assert_eq!(err, "Delete operation not supported to create new node");
    assert_eq!(clock.tick(0), 1);
}

#[test]
fn new_document_is_empty() {
    let doc = Document::new(17);
    assert_eq!(doc.doc_id(), 17);
    assert_eq!(doc.node(&id(1, 1)), None);
    assert!(!doc.is_child(&None, &id(1, 1)));
}

#[test]
fn insert_stores_node_and_links_it_to_parent() {
    let mut doc = Document::new(1);
    let a = node(1, 1, 'a', None);
    let b = node(2, 2, 'b', Some(a.id));
    doc.insert(&a);
    doc.insert(&b);
    assert_eq!(doc.node(&a.id), Some(a));
    assert_eq!(doc.node(&b.id), Some(b));
    assert!(doc.is_child(&None, &a.id));
    assert!(doc.is_child(&Some(a.id), &b.id));
    assert!(!doc.is_child(&None, &b.id));
    assert!(!doc.is_child(&Some(b.id), &a.id));
}

#[test]
fn insert_with_same_id_replaces_the_node() {
    let mut doc = Document::new(1);
    doc.insert(&node(1, 1, 'a', None));
    doc.insert(&node(1, 1, 'z', None));
    assert_eq!(doc.node(&id(1, 1)).unwrap().content, 'z');
}

#[test]
fn delete_marks_tombstone_and_keeps_node() {
    let mut doc = Document::new(1);
    let a = node(1, 1, 'a', None);
    doc.insert(&a);
    doc.delete(&a.id);
    let marked = doc.node(&a.id).unwrap();
    assert!(marked.tombstone);
    assert_eq!(marked.content, 'a');
    assert_eq!(marked.parent, None);
    assert!(doc.is_child(&None, &a.id));
}

#[test]
fn delete_of_unknown_node_changes_nothing() {
    let mut doc = Document::new(1);
    let a = node(1, 1, 'a', None);
    doc.insert(&a);
    doc.delete(&id(5, 5));
    assert_eq!(doc.node(&id(5, 5)), None);
    assert_eq!(doc.node(&a.id), Some(a));
}

#[test]
fn delete_twice_is_delete_once() {
    let mut once = Document::new(1);
    let mut twice = Document::new(1);
    let a = node(1, 1, 'a', None);
    once.insert(&a);
    twice.insert(&a);
    once.delete(&a.id);
    twice.delete(&a.id);
    twice.delete(&a.id);
    assert_eq!(once.node(&a.id), twice.node(&a.id));
}

#[test]
fn inserts_of_different_nodes_commute() {
    let a = node(1, 1, 'a', None);
    let b = node(2, 1, 'b', None);
    let mut ab = Document::new(1);
    ab.insert(&a);
    ab.insert(&b);
    let mut ba = Document::new(1);
    ba.insert(&b);
    ba.insert(&a);
    for x in [a.id, b.id] {
        assert_eq!(ab.node(&x), ba.node(&x));
        assert_eq!(ab.is_child(&None, &x), ba.is_child(&None, &x));
    }
}

#[test]
fn deletes_commute_and_insert_commutes_with_other_delete() {
    let a = node(1, 1, 'a', None);
    let b = node(2, 1, 'b', Some(a.id));
    let mut one = Document::new(1);
    one.insert(&a);
    one.insert(&b);
    one.delete(&a.id);
    one.delete(&b.id);
    let mut two = Document::new(1);
    two.insert(&a);
    two.delete(&a.id);
    two.insert(&b);
    two.delete(&b.id);
    assert_eq!(one.node(&a.id), two.node(&a.id));
    assert_eq!(one.node(&b.id), two.node(&b.id));
    assert!(one.node(&a.id).unwrap().tombstone && one.node(&b.id).unwrap().tombstone);
}

#[test]
fn apply_insert_stamps_with_document_clock() {
    let mut doc = Document::new(3);
    let op = Op::Insert { request_time: 7, user: 4, content: 'x', parent: None };
    assert!(doc.can_apply(&op));
    doc.apply_op(&op);
    assert_eq!(doc.node(&id(4, 8)), Some(node(4, 8, 'x', None)));
    assert!(doc.is_child(&None, &id(4, 8)));
    let op2 = Op::Insert { request_time: 0, user: 5, content: 'y', parent: Some(id(4, 8)) };
    doc.apply_op(&op2);
    assert_eq!(doc.node(&id(5, 9)), Some(node(5, 9, 'y', Some(id(4, 8)))));
    assert!(doc.is_child(&Some(id(4, 8)), &id(5, 9)));
}

#[test]
fn apply_delete_tombstones_and_leaves_clock() {
    let mut doc = Document::new(3);
    doc.apply_op(&Op::Insert { request_time: 0, user: 1, content: 'a', parent: None });
    doc.apply_op(&Op::Delete { id: id(1, 1) });
    assert!(doc.node(&id(1, 1)).unwrap().tombstone);
    doc.apply_op(&Op::Insert { request_time: 0, user: 1, content: 'b', parent: None });
    assert_eq!(doc.node(&id(1, 2)), Some(node(1, 2, 'b', None)));
}

#[test]
fn can_apply_refuses_only_overflowing_inserts() {
    let mut doc = Document::new(1);
    assert!(!doc.can_apply(&Op::Insert { request_time: u64::MAX, user: 1, content: 'a', parent: None }));
    assert!(doc.can_apply(&Op::Insert { request_time: u64::MAX - 1, user: 1, content: 'a', parent: None }));
    assert!(doc.can_apply(&Op::Delete { id: id(1, 1) }));
    doc.apply_op(&Op::Insert { request_time: u64::MAX - 1, user: 1, content: 'a', parent: None });
    assert!(!doc.can_apply(&Op::Insert { request_time: 0, user: 1, content: 'b', parent: None }));
    assert!(doc.can_apply(&Op::Delete { id: id(1, u64::MAX) }));
}
