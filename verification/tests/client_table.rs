use uav_realtime::registry::Registry;

fn id(s: &str) -> String {
    s.to_string()
}

#[test]
fn a_new_table_is_empty() {
    let table: Registry<u8> = Registry::new();
    assert_eq!(table.len(), 0);
    assert_eq!(table.position(&id("a")), 0);
    assert_eq!(table.get(&id("a")), None);
}

#[test]
fn put_adds_and_replaces() {
    let mut table: Registry<u8> = Registry::new();
    table.put(id("a"), 1);
    table.put(id("b"), 2);
    table.put(id("c"), 3);
    assert_eq!(table.len(), 3);
    assert_eq!(table.get(&id("b")), Some(&2));
    // A value that is put again moves to the end.
    table.put(id("a"), 9);
    assert_eq!(table.len(), 3);
    assert_eq!(table.position(&id("b")), 0);
    assert_eq!(table.position(&id("c")), 1);
    assert_eq!(table.position(&id("a")), 2);
    assert_eq!(table.id_at(2), "a");
    assert_eq!(table.value_at(2), &9);
    assert_eq!(table.get(&id("a")), Some(&9));
}

#[test]
fn remove_takes_one_entry_out() {
    let mut table: Registry<u8> = Registry::new();
    table.put(id("a"), 1);
    table.put(id("b"), 2);
    table.put(id("c"), 3);
    assert_eq!(table.remove(&id("b")), Some(2));
    assert_eq!(table.remove(&id("b")), None);
    assert_eq!(table.len(), 2);
    assert_eq!(table.id_at(0), "a");
    assert_eq!(table.id_at(1), "c");
    assert_eq!(table.position(&id("b")), 2);
    assert_eq!(table.get(&id("c")), Some(&3));
}
