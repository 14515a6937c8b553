use client_manager::device::{Device, Sector};
use client_manager::registry::{DuplicateName, Registry};

fn device(name: &str, pending_removal: bool) -> Device {
    Device {
        name: name.to_string(),
        frequency_min: 0,
        frequency_max: 0,
        pending_removal,
        sectors: Vec::new(),
    }
}

#[test]
fn commit_appends_in_order() {
    let mut r = Registry::new();
    assert!(r.commit(device("A", false)).is_ok());
    assert!(r.commit(device("B", false)).is_ok());
    assert_eq!(r.len(), 2);
    assert_eq!(r.get(0).name, "A");
    assert_eq!(r.get(1).name, "B");
}

#[test]
fn commit_rejects_duplicate_name() {
    let mut r = Registry::new();
    assert!(r.commit(device("A", false)).is_ok());
    let res = r.commit(device("A", false));
    assert!(matches!(res, Err(DuplicateName)));
    assert_eq!(r.len(), 1);
    assert_eq!(r.get(0).name, "A");
}

#[test]
fn commit_is_case_sensitive() {
    let mut r = Registry::new();
    assert!(r.commit(device("a", false)).is_ok());
    assert!(r.commit(device("A", false)).is_ok());
    assert_eq!(r.len(), 2);
}

#[test]
fn compact_removes_marked_entries() {
    let mut r = Registry { devices: vec![device("A", false), device("B", true)] };
    r.compact();
    assert_eq!(r.len(), 1);
    assert_eq!(r.get(0).name, "A");
    assert!(!r.get(0).pending_removal);
}

#[test]
fn compact_preserves_order_of_survivors() {
    let mut r = Registry {
        devices: vec![
            device("A", false),
            device("B", true),
            device("C", false),
            device("D", true),
            device("E", false),
        ],
    };
    r.compact();
    assert_eq!(r.len(), 3);
    assert_eq!(r.get(0).name, "A");
    assert_eq!(r.get(1).name, "C");
    assert_eq!(r.get(2).name, "E");
}

#[test]
fn compact_twice_is_compact_once() {
    let mut r = Registry { devices: vec![device("A", false), device("B", true), device("C", false)] };
    r.compact();
    let after_once: Vec<String> = (0..r.len()).map(|i| r.get(i).name.clone()).collect();
    r.compact();
    let after_twice: Vec<String> = (0..r.len()).map(|i| r.get(i).name.clone()).collect();
    assert_eq!(after_once, after_twice);
}

#[test]
fn compact_on_empty_registry() {
    let mut r = Registry::new();
    r.compact();
    assert_eq!(r.len(), 0);
}

#[test]
fn mark_for_removal_defers_removal() {
    let mut r = Registry::new();
    assert!(r.commit(device("A", false)).is_ok());
    assert!(r.commit(device("B", false)).is_ok());
    r.mark_for_removal(1);
    // Still visible until the compaction pass runs.
    assert_eq!(r.len(), 2);
    assert!(r.get(1).pending_removal);
    r.compact();
    assert_eq!(r.len(), 1);
    assert_eq!(r.get(0).name, "A");
}

#[test]
fn contains_name_matches_exactly() {
    let mut r = Registry::new();
    assert!(r.commit(device("alpha", false)).is_ok());
    assert!(r.contains_name(&"alpha".to_string()));
    assert!(!r.contains_name(&"Alpha".to_string()));
    assert!(!r.contains_name(&"alph".to_string()));
    assert!(!r.contains_name(&String::new()));
}

#[test]
fn frequency_edits_touch_only_their_row() {
    let mut r = Registry::new();
    assert!(r.commit(device("A", false)).is_ok());
    assert!(r.commit(device("B", false)).is_ok());
    r.set_frequency_min(1, 125);
    r.set_frequency_max(1, 9_000);
    assert_eq!(r.get(0).frequency_min, 0);
    assert_eq!(r.get(0).frequency_max, 0);
    assert_eq!(r.get(1).frequency_min, 125);
    assert_eq!(r.get(1).frequency_max, 9_000);
    assert_eq!(r.get(1).name, "B");
}

#[test]
fn sectors_survive_commit_and_compact() {
    let mut d = device("A", false);
    d.sectors = vec![Sector("north".to_string()), Sector("south".to_string())];
    let mut r = Registry::new();
    assert!(r.commit(d).is_ok());
    r.compact();
    assert_eq!(r.get(0).sectors.len(), 2);
    assert_eq!(r.get(0).sectors[0].0, "north");
    assert_eq!(r.get(0).sectors[1].0, "south");
}
