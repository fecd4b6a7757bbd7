use vstd::prelude::*;
use vstd::string::*;

verus! {

/// One header of a message or of one of its parts.
pub struct MailHeader {
    pub name: String,
    pub value: String,
}

/// One part of a message body, already decoded to text where it was text.
pub struct MailPart {
    pub headers: Vec<MailHeader>,
    pub body: Option<String>,
}

/// A fetched message, reduced to the plain values the export reads: its
/// identifier, its headers and its parts.
pub struct MailMessage {
    pub id: Option<String>,
    pub headers: Vec<MailHeader>,
    pub parts: Vec<MailPart>,
}

/// The lines the export writes for one message; a field whose source is
/// absent reads "Not found".
pub struct MessageDetails {
    pub msg_id: String,
    pub from: String,
    pub to: String,
    pub subject: String,
    pub date: String,
    pub body: String,
}

/// Whether `p` is a prefix of `s`.
pub open spec fn spec_prefix(s: Seq<char>, p: Seq<char>) -> bool {
    p.len() <= s.len() && s.subrange(0, p.len() as int) == p
}

/// The value of the last header named `name`, or "Not found" without one:
/// a later header of the same name supersedes an earlier one.
pub open spec fn spec_header_value(hs: Seq<MailHeader>, name: Seq<char>) -> Seq<char>
    decreases hs.len(),
{
    if hs.len() == 0 {
        "Not found"@
    } else if hs.last().name@ == name {
        hs.last().value@
    } else {
        spec_header_value(hs.drop_last(), name)
    }
}

/// Whether a part declares a plain-text content type.
pub open spec fn spec_part_matches(p: MailPart) -> bool {
    exists|i: int|
        0 <= i < p.headers@.len() && (#[trigger] p.headers@[i]).name@ == "Content-Type"@
            && spec_prefix(p.headers@[i].value@, "text/plain"@)
}

/// The body text of the first plain-text part: its decoded body, or
/// "Not found" when that part carries none or no part is plain text.
pub open spec fn spec_body_text(parts: Seq<MailPart>) -> Seq<char>
    decreases parts.len(),
{
    if parts.len() == 0 {
        "Not found"@
    } else if spec_part_matches(parts.first()) {
        match parts.first().body {
            Some(b) => b@,
            None => "Not found"@,
        }
    } else {
        spec_body_text(parts.drop_first())
    }
}

/// Decides equality of two strings.
pub fn str_eq(a: &str, b: &str) -> (r: bool)
    ensures
        r == (a@ == b@),
{
    let a_len = a.unicode_len();
    let b_len = b.unicode_len();
    if a_len != b_len {
        return false;
    }
    let mut i: usize = 0;
    while i < a_len
        invariant
            i <= a_len,
            a_len == a@.len(),
            a_len == b@.len(),
            forall|k: int| 0 <= k < i ==> a@[k] == b@[k],
        decreases a_len - i,
    {
        if a.get_char(i) != b.get_char(i) {
            return false;
        }
        i = i + 1;
    }
    proof {
        assert(a@ =~= b@);
    }
    true
}

/// Decides whether `p` is a prefix of `s`.
pub fn str_starts_with(s: &str, p: &str) -> (r: bool)
    ensures
        r == spec_prefix(s@, p@),
{
    let s_len = s.unicode_len();
    let p_len = p.unicode_len();
    if p_len > s_len {
        return false;
    }
    let mut i: usize = 0;
    while i < p_len
        invariant
            i <= p_len,
            p_len <= s_len,
            s_len == s@.len(),
            p_len == p@.len(),
            forall|k: int| 0 <= k < i ==> s@[k] == p@[k],
        decreases p_len - i,
    {
        if s.get_char(i) != p.get_char(i) {
            proof {
                assert(s@.subrange(0, p@.len() as int)[i as int] == s@[i as int]);
            }
            return false;
        }
        i = i + 1;
    }
    proof {
        assert(s@.subrange(0, p@.len() as int) =~= p@);
    }
    true
}

/// The placeholder for an absent field.
fn not_found() -> (s: String)
    ensures
        s@ == "Not found"@,
{
    String::from_str("Not found")
}

/// Whether a part declares a plain-text content type.
pub fn part_matches(p: &MailPart) -> (b: bool)
    ensures
        b == spec_part_matches(*p),
{
    let n = p.headers.len();
    let mut i: usize = 0;
    while i < n
        invariant
            i <= n,
            n == p.headers@.len(),
            forall|k: int|
                0 <= k < i ==> !((#[trigger] p.headers@[k]).name@ == "Content-Type"@ && spec_prefix(
                    p.headers@[k].value@,
                    "text/plain"@,
                )),
        decreases n - i,
    {
        let h = &p.headers[i];
        if str_eq(h.name.as_str(), "Content-Type") && str_starts_with(
            h.value.as_str(),
            "text/plain",
        ) {
            return true;
        }
        i = i + 1;
    }
    false
}

/// The position of the first plain-text part, if any.
fn find_plain_part(parts: &Vec<MailPart>) -> (r: Option<usize>)
    ensures
        match r {
            Some(j) => j < parts@.len() && spec_part_matches(parts@[j as int]) && forall|k: int|
                0 <= k < j ==> !spec_part_matches(#[trigger] parts@[k]),
            None => forall|k: int| 0 <= k < parts@.len() ==> !spec_part_matches(#[trigger] parts@[k]),
        },
{
    let n = parts.len();
    let mut j: usize = 0;
    while j < n
        invariant
            j <= n,
            n == parts@.len(),
            forall|k: int| 0 <= k < j ==> !spec_part_matches(#[trigger] parts@[k]),
        decreases n - j,
    {
        if part_matches(&parts[j]) {
            return Some(j);
        }
        j = j + 1;
    }
    None
}

/// The body text is decided by the first plain-text part.
proof fn lemma_body_of_first_match(parts: Seq<MailPart>, j: int)
    requires
        0 <= j < parts.len(),
        spec_part_matches(parts[j]),
        forall|k: int| 0 <= k < j ==> !spec_part_matches(#[trigger] parts[k]),
    ensures
        spec_body_text(parts) == (match parts[j].body {
            Some(b) => b@,
            None => "Not found"@,
        }),
    decreases j,
{
    if j == 0 {
    } else {
        assert(!spec_part_matches(parts[0]));
        assert(parts.drop_first()[j - 1] == parts[j]);
        assert(forall|k: int|
            0 <= k < j - 1 ==> #[trigger] parts.drop_first()[k] == parts[k + 1]);
        lemma_body_of_first_match(parts.drop_first(), j - 1);
    }
}

/// Without a plain-text part the body reads "Not found".
proof fn lemma_body_no_match(parts: Seq<MailPart>)
    requires
        forall|k: int| 0 <= k < parts.len() ==> !spec_part_matches(#[trigger] parts[k]),
    ensures
        spec_body_text(parts) == "Not found"@,
    decreases parts.len(),
{
    if parts.len() > 0 {
        assert(forall|k: int|
            0 <= k < parts.drop_first().len() ==> #[trigger] parts.drop_first()[k] == parts[k + 1]);
        lemma_body_no_match(parts.drop_first());
    }
}

/// Reads off a fetched message everything the export prints: identifier,
/// the To, From, Date and Subject headers (the last occurrence of each),
/// and the body text of its first plain-text part. An absent source reads
/// "Not found".
pub fn extract_details(msg: &MailMessage) -> (d: MessageDetails)
    ensures
        d.msg_id@ == (match msg.id {
            Some(id) => id@,
            None => "Not found"@,
        }),
        d.to@ == spec_header_value(msg.headers@, "To"@),
        d.from@ == spec_header_value(msg.headers@, "From"@),
        d.date@ == spec_header_value(msg.headers@, "Date"@),
        d.subject@ == spec_header_value(msg.headers@, "Subject"@),
        d.body@ == spec_body_text(msg.parts@),
{
    proof {
        reveal_strlit("To");
        reveal_strlit("From");
        reveal_strlit("Date");
        reveal_strlit("Subject");
    }
    let mut msg_id = not_found();
    if let Some(id) = &msg.id {
        msg_id = id.clone();
    }
    let mut to = not_found();
    let mut from = not_found();
    let mut date = not_found();
    let mut subject = not_found();
    let n = msg.headers.len();
    let mut i: usize = 0;
    proof {
        assert(msg.headers@.take(0) =~= Seq::<MailHeader>::empty());
    }
    while i < n
        invariant
            i <= n,
            n == msg.headers@.len(),
            to@ == spec_header_value(msg.headers@.take(i as int), "To"@),
            from@ == spec_header_value(msg.headers@.take(i as int), "From"@),
            date@ == spec_header_value(msg.headers@.take(i as int), "Date"@),
            subject@ == spec_header_value(msg.headers@.take(i as int), "Subject"@),
        decreases n - i,
    {
        proof {
            reveal_strlit("To");
            reveal_strlit("From");
            reveal_strlit("Date");
            reveal_strlit("Subject");
        }
        let h = &msg.headers[i];
        if str_eq(h.name.as_str(), "To") {
            to = h.value.clone();
        } else if str_eq(h.name.as_str(), "From") {
            from = h.value.clone();
        } else if str_eq(h.name.as_str(), "Date") {
            date = h.value.clone();
        } else if str_eq(h.name.as_str(), "Subject") {
            subject = h.value.clone();
        }
        proof {
            let pre = msg.headers@.take(i as int);
            let post = msg.headers@.take(i as int + 1);
            assert(post.drop_last() =~= pre);
            assert(post.last() == msg.headers@[i as int]);
            assert("To"@.len() == 2);
            assert("From"@.len() == 4);
            assert("Date"@.len() == 4);
            assert("Subject"@.len() == 7);
            assert("From"@[0] != "Date"@[0]);
            assert("From"@ != "Date"@);
        }
        i = i + 1;
    }
    proof {
        assert(msg.headers@.take(n as int) =~= msg.headers@);
    }
    let mut body = not_found();
    match find_plain_part(&msg.parts) {
        Some(j) => {
            proof {
                lemma_body_of_first_match(msg.parts@, j as int);
            }
            if let Some(text) = &msg.parts[j].body {
                body = text.clone();
            }
        },
        None => {
            proof {
                lemma_body_no_match(msg.parts@);
            }
        },
    }
    MessageDetails { msg_id, from, to, subject, date, body }
}

/// The text block the export writes for one message.
pub open spec fn spec_details_text(d: MessageDetails) -> Seq<char> {
    "Message ID: "@ + d.msg_id@ + "\nFrom: "@ + d.from@ + "\nTo: "@ + d.to@ + "\nDate: "@ + d.date@
        + "\nSubject: "@ + d.subject@ + "\nBody: "@ + d.body@ + "\n\n"@
}

/// Renders the lines the export writes for one message.
pub fn format_details(d: &MessageDetails) -> (s: String)
    ensures
        s@ == spec_details_text(*d),
{
    let mut s = String::new();
    s.append("Message ID: ");
    s.append(d.msg_id.as_str());
    s.append("\nFrom: ");
    s.append(d.from.as_str());
    s.append("\nTo: ");
    s.append(d.to.as_str());
    s.append("\nDate: ");
    s.append(d.date.as_str());
    s.append("\nSubject: ");
    s.append(d.subject.as_str());
    s.append("\nBody: ");
    s.append(d.body.as_str());
    s.append("\n\n");
    proof {
        assert(s@ =~= spec_details_text(*d));
    }
    s
}

} // verus!
