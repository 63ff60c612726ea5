use graymamba::db_explorer::{
    filter_keys, key_matches_filter, DBExplorerAction, DBExplorerEvent, DBExplorerState,
};

fn raw(keys: &[&str]) -> Vec<Vec<u8>> {
    keys.iter().map(|k| k.as_bytes().to_vec()).collect()
}

#[test]
fn filter_ignores_case() {
    assert!(key_matches_filter("{graymamba}:/Alice/Docs", ""));
    assert!(key_matches_filter("{graymamba}:/Alice/Docs", "alice"));
    assert!(key_matches_filter("{graymamba}:/alice/docs", "DOCS"));
    assert!(!key_matches_filter("{graymamba}:/alice/docs", "bob"));
}

#[test]
fn keys_are_listed_in_order_under_the_filter() {
    let keys = filter_keys(&raw(&["a/One", "b/two", "c/ONE"]), "one").ok().unwrap();
    assert_eq!(keys, vec!["a/One".to_string(), "c/ONE".to_string()]);
    let all = filter_keys(&raw(&["x", "y"]), "").ok().unwrap();
    assert_eq!(all.len(), 2);
    let bad = filter_keys(&vec![b"ok".to_vec(), vec![0xff, 0xfe]], "");
    assert!(bad.is_err());
}

#[test]
fn explorer_opens_filters_and_reads_values() {
    let mut e = DBExplorerState::new("/data/db".to_string());
    match e.update(DBExplorerEvent::OpenDB) {
        DBExplorerAction::ReadKeys { path } => assert_eq!(path, "/data/db"),
        _ => panic!("opening reads the keys"),
    }
    assert_eq!(e.db_path, "/data/db");
    e.keys_read(Ok(raw(&["k1", "K2", "other"])));
    assert_eq!(e.keys.len(), 3);
    assert!(e.error_message.is_none());

    match e.update(DBExplorerEvent::FilterChanged("k".to_string())) {
        DBExplorerAction::ReadKeys { path } => assert_eq!(path, "/data/db"),
        _ => panic!("a new filter reloads the keys"),
    }
    e.keys_read(Ok(raw(&["k1", "K2", "other"])));
    assert_eq!(e.keys, vec!["k1".to_string(), "K2".to_string()]);

    match e.update(DBExplorerEvent::SelectKey("k1".to_string())) {
        DBExplorerAction::ReadValue { key } => assert_eq!(key, "k1"),
        _ => panic!("selecting a key reads its value"),
    }
    e.value_read(Ok(Some(b"v1".to_vec())));
    assert_eq!(e.values, vec!["v1".to_string()]);
    e.value_read(Ok(Some(vec![0xc3])));
    assert!(e.error_message.is_some());
    assert_eq!(e.values.len(), 1);

    assert!(matches!(e.update(DBExplorerEvent::Refresh), DBExplorerAction::ReadKeys { .. }));
    assert!(e.values.is_empty());
    assert!(e.selected_key.is_none());

    e.keys_read(Err("cannot open".to_string()));
    assert_eq!(e.error_message.as_deref(), Some("cannot open"));
    assert_eq!(e.keys.len(), 2);
    assert!(matches!(e.update(DBExplorerEvent::SetDBPath("/other".to_string())), DBExplorerAction::Nothing));
    assert_eq!(e.db_path_input, "/other");
    assert_eq!(e.db_path, "/data/db");
}
