use farm_session::session::SessionTable;

fn key(s: &str) -> String {
    s.to_string()
}

#[test]
fn output_of_unknown_user_is_empty() {
    let t: SessionTable<u32> = SessionTable::new();
    assert!(t.get_output(&key("nobody")).is_empty());
    assert!(!t.contains_key(&key("nobody")));
    assert_eq!(t.session_id(&key("nobody")), None);
}

#[test]
fn first_install_evicts_nothing() {
    let mut t: SessionTable<u32> = SessionTable::new();
    let (id, old) = t.insert_replacing(key("alice"), 7);
    assert_eq!(old, None);
    assert_eq!(t.session_id(&key("alice")), Some(id));
    assert!(t.get_output(&key("alice")).is_empty());
}

#[test]
fn second_install_hands_back_the_first_process() {
    let mut t: SessionTable<u32> = SessionTable::new();
    let (id1, old1) = t.insert_replacing(key("alice"), 1);
    let (id2, old2) = t.insert_replacing(key("alice"), 2);
    assert_eq!(old1, None);
    assert_eq!(old2, Some(1));
    assert_ne!(id1, id2);
    assert_eq!(t.session_id(&key("alice")), Some(id2));
    assert_eq!(t.remove(&key("alice")), Some(2));
    assert!(!t.contains_key(&key("alice")));
}

#[test]
fn replaced_process_cannot_write_output() {
    let mut t: SessionTable<u32> = SessionTable::new();
    let (id1, _) = t.insert_replacing(key("bob"), 1);
    assert!(t.push_output(&key("bob"), id1, "from first".to_string()));
    let (id2, old) = t.insert_replacing(key("bob"), 2);
    assert_eq!(old, Some(1));
    assert!(t.get_output(&key("bob")).is_empty());
    assert!(!t.push_output(&key("bob"), id1, "late line".to_string()));
    assert!(t.push_output(&key("bob"), id2, "from second".to_string()));
    assert_eq!(t.get_output(&key("bob")), vec!["from second".to_string()]);
}

#[test]
fn users_are_independent() {
    let mut t: SessionTable<&str> = SessionTable::new();
    let (ida, _) = t.insert_replacing(key("a"), "pa");
    let (idb, _) = t.insert_replacing(key("b"), "pb");
    assert!(t.push_output(&key("a"), ida, "A1".to_string()));
    assert!(t.push_output(&key("b"), idb, "B1".to_string()));
    assert!(!t.push_output(&key("a"), idb, "wrong id".to_string()));
    assert_eq!(t.get_output(&key("a")), vec!["A1".to_string()]);
    assert_eq!(t.get_output(&key("b")), vec!["B1".to_string()]);
    assert_eq!(t.remove(&key("a")), Some("pa"));
    assert_eq!(t.remove(&key("a")), None);
    assert_eq!(t.get_output(&key("b")), vec!["B1".to_string()]);
}

#[test]
fn session_output_keeps_last_ten() {
    let mut t: SessionTable<u8> = SessionTable::new();
    let (id, _) = t.insert_replacing(key("c"), 0);
    for n in 0..12 {
        assert!(t.push_output(&key("c"), id, n.to_string()));
    }
    let expected: Vec<String> = (2..12).map(|n| n.to_string()).collect();
    assert_eq!(t.get_output(&key("c")), expected);
}
