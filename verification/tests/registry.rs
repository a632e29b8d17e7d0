use lucid_tutor::Registry;

#[test]
fn registering_three_learners_counts_three() {
    let mut r: Registry<u32> = Registry::new();
    assert!(r.is_empty());
    r.insert("alice", 0);
    r.insert("bob", 0);
    r.insert("carol", 0);
    assert_eq!(r.len(), 3);
    assert!(!r.is_empty());
}

#[test]
fn registering_again_replaces_the_value() {
    let mut r: Registry<u32> = Registry::new();
    assert_eq!(r.insert("alice", 1), None);
    assert_eq!(r.insert("bob", 2), None);
    assert_eq!(r.insert("alice", 3), Some(1));
    assert_eq!(r.len(), 2);
    assert_eq!(r.get("alice"), Some(&3));
    assert_eq!(r.get("bob"), Some(&2));
    assert_eq!(r.find("alice"), Some(0));
    assert_eq!(r.name_at(1), "bob");
}

#[test]
fn lookups_of_unknown_names_find_nothing() {
    let mut r: Registry<u32> = Registry::new();
    r.insert("alice", 1);
    assert_eq!(r.get("dave"), None);
    assert_eq!(r.find("dave"), None);
    assert!(!r.contains_key("dave"));
    assert!(r.contains_key("alice"));
}

#[test]
fn get_or_insert_keeps_an_existing_value() {
    let mut r: Registry<u32> = Registry::new();
    r.insert("alice", 5);
    let i = r.get_or_insert("alice", 0);
    assert_eq!(i, 0);
    assert_eq!(*r.value_at(i), 5);
    let j = r.get_or_insert("bob", 7);
    assert_eq!(j, 1);
    assert_eq!(*r.value_at(j), 7);
    assert_eq!(r.len(), 2);
}

#[test]
fn replace_at_swaps_the_value_only() {
    let mut r: Registry<u32> = Registry::new();
    r.insert("alice", 5);
    r.insert("bob", 6);
    assert_eq!(r.replace_at(1, 9), 6);
    assert_eq!(r.name_at(1), "bob");
    assert_eq!(r.get("bob"), Some(&9));
    assert_eq!(r.get("alice"), Some(&5));
}

#[test]
fn positions_except_leave_out_the_name() {
    let mut r: Registry<u32> = Registry::new();
    r.insert("alice", 0);
    r.insert("bob", 0);
    r.insert("carol", 0);
    assert_eq!(r.positions_except("bob"), vec![0, 2]);
    assert_eq!(r.positions_except("dave"), vec![0, 1, 2]);
}

#[test]
fn shared_positions_find_common_names() {
    let mut a: Registry<u32> = Registry::new();
    a.insert("math", 1);
    a.insert("physics", 2);
    a.insert("art", 3);
    let mut b: Registry<&str> = Registry::new();
    b.insert("art", "x");
    b.insert("math", "y");
    assert_eq!(a.shared_positions(&b), vec![0, 2]);
    let c: Registry<u8> = Registry::new();
    assert_eq!(a.shared_positions(&c), Vec::<usize>::new());
}

#[test]
fn clone_keeps_names_and_values() {
    let mut a: Registry<String> = Registry::new();
    a.insert("x", "one".to_string());
    a.insert("y", "two".to_string());
    let b = a.clone();
    assert_eq!(b.len(), 2);
    assert_eq!(b.name_at(0), "x");
    assert_eq!(b.get("y").map(|s| s.as_str()), Some("two"));
}
