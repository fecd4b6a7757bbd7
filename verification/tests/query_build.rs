use mail_pipeline::cmd_args::Filter;
use mail_pipeline::query::{decimal_string, filter_is_empty, plan_query, query_parse};

fn empty_filter() -> Filter {
    Filter {
        words: None,
        from: None,
        to: None,
        cc: None,
        bcc: None,
        subject: None,
        remove_words: None,
        labels: None,
        has: None,
        list: None,
        filename: None,
        in_folders: None,
        is_states: None,
        after: None,
        before: None,
        older_than: None,
        newer_than: None,
        deliveredto: None,
        category: None,
        size: None,
        larger: None,
        smaller: None,
        rfc822msgid: None,
        text_file: None,
        json_file: None,
    }
}

#[test]
fn empty_filter_builds_an_empty_query() {
    let f = empty_filter();
    assert!(filter_is_empty(&f));
    assert_eq!(query_parse(&f), "");
}

#[test]
fn words_are_joined_with_spaces() {
    let mut f = empty_filter();
    f.words = Some(vec!["hello".to_string(), "world".to_string()]);
    assert!(!filter_is_empty(&f));
    assert_eq!(query_parse(&f), "hello world ");
}

#[test]
fn each_field_carries_its_operator() {
    let mut f = empty_filter();
    f.from = Some(vec!["alice@example.com".to_string()]);
    f.labels = Some(vec!["inbox".to_string(), "urgent".to_string()]);
    f.after = Some("2020/01/01".to_string());
    assert_eq!(
        query_parse(&f),
        "from:alice@example.com label:inbox label:urgent after:2020/01/01 "
    );
}

#[test]
fn remove_words_are_negated() {
    let mut f = empty_filter();
    f.remove_words = Some(vec!["spam".to_string()]);
    assert_eq!(query_parse(&f), "-spam ");
}

#[test]
fn numeric_fields_render_in_decimal() {
    let mut f = empty_filter();
    f.size = Some(1000);
    f.larger = Some(5);
    f.smaller = Some(20000);
    assert_eq!(query_parse(&f), "size:1000 larger:5 smaller:20000 ");
}

#[test]
fn fields_render_in_the_fixed_order() {
    let mut f = empty_filter();
    f.words = Some(vec!["w".to_string()]);
    f.from = Some(vec!["a@b.c".to_string()]);
    f.is_states = Some(vec!["unread".to_string()]);
    f.rfc822msgid = Some(vec!["mid".to_string()]);
    f.size = Some(3);
    assert_eq!(query_parse(&f), "w from:a@b.c is:unread rfc822msgid:mid size:3 ");
}

#[test]
fn file_fields_do_not_make_a_filter_nonempty() {
    let mut f = empty_filter();
    f.text_file = Some("query.txt".to_string());
    f.json_file = Some("query.json".to_string());
    assert!(filter_is_empty(&f));
}

#[test]
fn decimal_string_renders_exactly() {
    assert_eq!(decimal_string(0), "0");
    assert_eq!(decimal_string(7), "7");
    assert_eq!(decimal_string(10), "10");
    assert_eq!(decimal_string(12345), "12345");
    assert_eq!(decimal_string(1000000), "1000000");
    assert_eq!(decimal_string(usize::MAX), usize::MAX.to_string());
}

#[test]
fn plan_query_asks_for_nothing_on_an_empty_filter() {
    let f = empty_filter();
    let plan = plan_query(&f);
    assert!(plan.query.is_none());
    assert_eq!(plan.max_results, 0);
}

#[test]
fn plan_query_searches_with_the_query_string() {
    let mut f = empty_filter();
    f.words = Some(vec!["invoice".to_string()]);
    let plan = plan_query(&f);
    assert_eq!(plan.query.as_deref(), Some("invoice "));
    assert_eq!(plan.max_results, 500);
}
