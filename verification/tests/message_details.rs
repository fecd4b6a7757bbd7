use mail_pipeline::message::{
    extract_details, format_details, str_eq, str_starts_with, MailHeader, MailMessage, MailPart,
};

fn header(name: &str, value: &str) -> MailHeader {
    MailHeader { name: name.to_string(), value: value.to_string() }
}

#[test]
fn extract_reads_the_usual_headers() {
    let msg = MailMessage {
        id: Some("m1".to_string()),
        headers: vec![
            header("To", "bob@example.com"),
            header("From", "alice@example.com"),
            header("Date", "Mon, 1 Jan 2024"),
            header("Subject", "Greetings"),
        ],
        parts: vec![MailPart {
            headers: vec![header("Content-Type", "text/plain; charset=UTF-8")],
            body: Some("Hello Bob".to_string()),
        }],
    };
    let d = extract_details(&msg);
    assert_eq!(d.msg_id, "m1");
    assert_eq!(d.to, "bob@example.com");
    assert_eq!(d.from, "alice@example.com");
    assert_eq!(d.date, "Mon, 1 Jan 2024");
    assert_eq!(d.subject, "Greetings");
    assert_eq!(d.body, "Hello Bob");
}

#[test]
fn absent_sources_read_not_found() {
    let msg = MailMessage { id: None, headers: vec![], parts: vec![] };
    let d = extract_details(&msg);
    assert_eq!(d.msg_id, "Not found");
    assert_eq!(d.to, "Not found");
    assert_eq!(d.from, "Not found");
    assert_eq!(d.date, "Not found");
    assert_eq!(d.subject, "Not found");
    assert_eq!(d.body, "Not found");
}

#[test]
fn a_later_header_supersedes_an_earlier_one() {
    let msg = MailMessage {
        id: Some("m2".to_string()),
        headers: vec![header("Subject", "first"), header("Subject", "second")],
        parts: vec![],
    };
    let d = extract_details(&msg);
    assert_eq!(d.subject, "second");
}

#[test]
fn the_first_plain_text_part_wins() {
    let msg = MailMessage {
        id: None,
        headers: vec![],
        parts: vec![
            MailPart {
                headers: vec![header("Content-Type", "text/html")],
                body: Some("<p>no</p>".to_string()),
            },
            MailPart {
                headers: vec![header("Content-Type", "text/plain")],
                body: Some("yes".to_string()),
            },
            MailPart {
                headers: vec![header("Content-Type", "text/plain")],
                body: Some("not this one".to_string()),
            },
        ],
    };
    let d = extract_details(&msg);
    assert_eq!(d.body, "yes");
}

#[test]
fn a_plain_text_part_without_body_reads_not_found() {
    let msg = MailMessage {
        id: None,
        headers: vec![],
        parts: vec![
            MailPart { headers: vec![header("Content-Type", "text/plain")], body: None },
            MailPart {
                headers: vec![header("Content-Type", "text/plain")],
                body: Some("skipped".to_string()),
            },
        ],
    };
    let d = extract_details(&msg);
    assert_eq!(d.body, "Not found");
}

#[test]
fn format_renders_the_exact_block() {
    let msg = MailMessage {
        id: Some("abc".to_string()),
        headers: vec![
            header("From", "a@x"),
            header("To", "b@y"),
            header("Date", "today"),
            header("Subject", "s"),
        ],
        parts: vec![MailPart {
            headers: vec![header("Content-Type", "text/plain")],
            body: Some("body text".to_string()),
        }],
    };
    let d = extract_details(&msg);
    let text = format_details(&d);
    assert_eq!(
        text,
        "Message ID: abc\nFrom: a@x\nTo: b@y\nDate: today\nSubject: s\nBody: body text\n\n"
    );
}

#[test]
fn str_helpers_decide_exactly() {
    assert!(str_eq("same", "same"));
    assert!(!str_eq("same", "sam"));
    assert!(!str_eq("a", "b"));
    assert!(str_starts_with("text/plain; charset", "text/plain"));
    assert!(!str_starts_with("text/html", "text/plain"));
    assert!(str_starts_with("anything", ""));
    assert!(!str_starts_with("", "a"));
}
