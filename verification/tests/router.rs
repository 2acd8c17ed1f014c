use collab_doc::router::DocumentTable;

#[test]
fn lookup_finds_only_registered_documents() {
    let mut table: DocumentTable<&str> = DocumentTable::new();
    assert_eq!(table.lookup(1), None);
    table.register(1, "first");
    table.register(2, "second");
    assert_eq!(table.lookup(1), Some(&"first"));
    assert_eq!(table.lookup(2), Some(&"second"));
    assert_eq!(table.lookup(3), None);
}

#[test]
fn register_replaces_earlier_handle() {
    let mut table: DocumentTable<u32> = DocumentTable::new();
    table.register(4, 10);
    table.register(4, 20);
    assert_eq!(table.lookup(4), Some(&20));
}
