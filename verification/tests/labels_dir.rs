use mail_pipeline::labels::{collect_labels, LabelDirectory};

#[test]
fn collect_keeps_complete_pairs_only() {
    let dir = collect_labels(vec![
        (Some("INBOX".to_string()), Some("L1".to_string())),
        (None, Some("L2".to_string())),
        (Some("SENT".to_string()), None),
        (Some("SPAM".to_string()), Some("L4".to_string())),
    ]);
    assert_eq!(dir.len(), 2);
    assert_eq!(dir.get(&"INBOX".to_string()).map(String::as_str), Some("L1"));
    assert_eq!(dir.get(&"SPAM".to_string()).map(String::as_str), Some("L4"));
    assert!(dir.get(&"SENT".to_string()).is_none());
}

#[test]
fn a_later_pair_replaces_an_earlier_name() {
    let dir = collect_labels(vec![
        (Some("INBOX".to_string()), Some("old".to_string())),
        (Some("INBOX".to_string()), Some("new".to_string())),
    ]);
    assert_eq!(dir.len(), 1);
    assert_eq!(dir.get(&"INBOX".to_string()).map(String::as_str), Some("new"));
}

#[test]
fn lookup_of_an_unknown_name_is_none() {
    let dir = LabelDirectory::new();
    assert!(dir.get(&"nothing".to_string()).is_none());
}

#[test]
fn insert_replaces_and_keeps_name_order() {
    let mut dir = LabelDirectory::new();
    dir.insert("b".to_string(), "2".to_string());
    dir.insert("a".to_string(), "1".to_string());
    dir.insert("a".to_string(), "3".to_string());
    assert_eq!(dir.len(), 2);
    assert_eq!(dir.entry_at(0).name, "a");
    assert_eq!(dir.entry_at(0).id, "3");
    assert_eq!(dir.entry_at(1).name, "b");
    assert_eq!(dir.entry_at(1).id, "2");
}

#[test]
fn a_walk_yields_names_sorted() {
    let dir = collect_labels(vec![
        (Some("SPAM".to_string()), Some("L4".to_string())),
        (Some("DRAFT".to_string()), Some("L2".to_string())),
        (Some("INBOX".to_string()), Some("L1".to_string())),
    ]);
    assert_eq!(dir.len(), 3);
    assert_eq!(dir.entry_at(0).name, "DRAFT");
    assert_eq!(dir.entry_at(1).name, "INBOX");
    assert_eq!(dir.entry_at(2).name, "SPAM");
}
