use maelstrom_node::topology::TopologyMap;
use maelstrom_node::value::{OpaqueValue, SeenSet};

fn value(text: &str) -> OpaqueValue {
    OpaqueValue::new(text.as_bytes().to_vec())
}

#[test]
fn value_equality_is_by_encoding() {
    assert!(value("42").value_eq(&value("42")));
    assert!(!value("42").value_eq(&value("43")));
    assert!(!value("42").value_eq(&value("420")));
    assert!(value("").value_eq(&value("")));
}

#[test]
fn duplicate_copies_the_encoding() {
    let v = value("\"hello\"");
    let copy = v.duplicate();
    assert!(v.value_eq(&copy));
    assert_eq!(copy.bytes, v.bytes);
}

#[test]
fn seen_set_deduplicates_and_only_grows() {
    let mut s = SeenSet::new();
    assert_eq!(s.len(), 0);
    s.insert(value("1"));
    s.insert(value("2"));
    s.insert(value("1"));
    assert_eq!(s.len(), 2);
    assert!(s.contains_value(&value("1")));
    assert!(s.contains_value(&value("2")));
    assert!(!s.contains_value(&value("3")));
    assert_eq!(s.items[0].bytes, b"1".to_vec());
    assert_eq!(s.items[1].bytes, b"2".to_vec());
}

#[test]
fn absorb_unions_and_snapshot_copies() {
    let mut a = SeenSet::new();
    a.insert(value("1"));
    let mut b = SeenSet::new();
    b.insert(value("1"));
    b.insert(value("2"));
    a.absorb(&b);
    assert_eq!(a.len(), 2);
    let snap = a.snapshot();
    assert_eq!(snap.len(), 2);
    assert!(snap.contains_value(&value("1")));
    assert!(snap.contains_value(&value("2")));
}

#[test]
fn topology_lookup_finds_the_first_entry() {
    let topo = TopologyMap::new(vec![
        ("n1".to_string(), vec!["n2".to_string(), "n3".to_string()]),
        ("n2".to_string(), vec![]),
        ("n1".to_string(), vec!["n9".to_string()]),
    ]);
    let ns = topo.neighbors_of(&"n1".to_string()).expect("entry for n1");
    assert_eq!(ns, vec!["n2".to_string(), "n3".to_string()]);
    let ns = topo.neighbors_of(&"n2".to_string()).expect("entry for n2");
    assert!(ns.is_empty());
    assert!(topo.neighbors_of(&"n3".to_string()).is_none());
}

#[test]
fn empty_topology_has_no_entries() {
    let topo = TopologyMap::empty();
    assert!(topo.neighbors_of(&"n1".to_string()).is_none());
}
