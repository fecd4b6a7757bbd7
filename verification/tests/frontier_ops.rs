use mail_pipeline::frontier::{str_lt, Frontier, FrontierResult};

fn take_id(f: &mut Frontier) -> String {
    match f.take_one() {
        FrontierResult::Identifier(s) => s,
        FrontierResult::Done => panic!("frontier reported done"),
        FrontierResult::Empty => panic!("frontier reported empty"),
    }
}

#[test]
fn insert_is_idempotent() {
    let mut f = Frontier::new();
    f.insert("alpha".to_string());
    f.insert("alpha".to_string());
    assert_eq!(f.pending_count(), 1);
    assert_eq!(take_id(&mut f), "alpha");
    assert!(matches!(f.take_one(), FrontierResult::Empty));
}

#[test]
fn take_one_returns_the_least_identifier() {
    let mut f = Frontier::new();
    f.insert("beta".to_string());
    f.insert("alpha".to_string());
    f.insert("gamma".to_string());
    assert_eq!(take_id(&mut f), "alpha");
    assert_eq!(take_id(&mut f), "beta");
    assert_eq!(take_id(&mut f), "gamma");
}

#[test]
fn done_is_seen_only_after_identifiers_drain() {
    let mut f = Frontier::new();
    f.insert("work".to_string());
    f.signal_done();
    assert_eq!(take_id(&mut f), "work");
    assert!(matches!(f.take_one(), FrontierResult::Done));
    assert!(matches!(f.take_one(), FrontierResult::Done));
}

#[test]
fn empty_and_done_are_distinct() {
    let mut f = Frontier::new();
    assert!(matches!(f.take_one(), FrontierResult::Empty));
    f.signal_done();
    assert!(matches!(f.take_one(), FrontierResult::Done));
}

#[test]
fn insert_all_deduplicates() {
    let mut f = Frontier::new();
    f.insert_all(vec![
        "a".to_string(),
        "b".to_string(),
        "a".to_string(),
        "c".to_string(),
        "b".to_string(),
    ]);
    assert_eq!(f.pending_count(), 3);
    assert_eq!(take_id(&mut f), "a");
    assert_eq!(take_id(&mut f), "b");
    assert_eq!(take_id(&mut f), "c");
}

#[test]
fn str_lt_orders_lexicographically() {
    assert!(str_lt("a", "b"));
    assert!(!str_lt("b", "a"));
    assert!(str_lt("a", "ab"));
    assert!(!str_lt("ab", "a"));
    assert!(str_lt("", "a"));
    assert!(!str_lt("a", "a"));
    assert!(str_lt("abc", "abd"));
    assert!(!str_lt("abd", "abc"));
}
