use vstd::prelude::*;
use crate::cmd_args::{Send, SendInfo};

verus! {

/// Whether lettre's mailbox grammar accepts the string; a function of the
/// string alone.
pub uninterp spec fn mailbox_accepted(s: Seq<char>) -> bool;

/// Relies on lettre's `Mailbox` parser (`str::parse::<Mailbox>`): whether a
/// string is a well-formed mailbox is decided by the string alone.
#[verifier::external_body]
fn parse_mailbox_ok(s: &String) -> (r: bool)
    ensures
        r == mailbox_accepted(s@),
{
    match s.as_str().parse::<lettre::message::Mailbox>() {
        Ok(_) => true,
        Err(_) => false,
    }
}

/// The first media type mime_guess knows for a path's extension; a function
/// of the path alone.
pub uninterp spec fn mime_of_path(path: Seq<char>) -> Option<Seq<char>>;

/// Relies on `mime_guess::from_path` and `MimeGuess::first_raw`: the guess
/// is a fixed table lookup on the path's extension, touching no disk.
#[verifier::external_body]
fn guess_mime(path: &String) -> (r: Option<String>)
    ensures
        r is Some <==> mime_of_path(path@) is Some,
        (match r {
            Some(m) => mime_of_path(path@) == Some(m@),
            None => true,
        }),
{
    match mime_guess::from_path(path.as_str()).first_raw() {
        Some(m) => Some(m.to_string()),
        None => None,
    }
}

/// The address field a rejected address stood in.
#[derive(Debug)]
pub enum AddressField {
    From,
    To,
    Cc,
    Bcc,
}

/// Why a send is refused before anything is built or transmitted.
#[derive(Debug)]
pub enum SendError {
    /// An address the mailbox grammar rejects, with its field.
    BadAddress { field: AddressField, address: String },
    /// An attachment path whose extension maps to no known media type.
    UnknownAttachmentType { path: String },
}

/// One attachment ready to build: its path and the media type to declare.
pub struct AttachmentPlan {
    pub path: String,
    pub mime: String,
}

/// The message fields of a send command, taken out of it; the relay account
/// fields stay behind.
pub fn send_details_of(send: Send) -> (info: SendInfo)
    ensures
        info.from == send.from,
        info.to == send.to,
        info.cc == send.cc,
        info.bcc == send.bcc,
        info.subject == send.subject,
        info.description == send.description,
        info.attachment == send.attachment,
{
    SendInfo {
        from: send.from,
        to: send.to,
        cc: send.cc,
        bcc: send.bcc,
        subject: send.subject,
        description: send.description,
        attachment: send.attachment,
    }
}

/// Which details a send uses: the ones read from a file when one was given,
/// else the ones from the command line.
pub fn resolve_send_details(cli: SendInfo, from_file: Option<SendInfo>) -> (r: SendInfo)
    ensures
        r == (match from_file {
            Some(f) => f,
            None => cli,
        }),
{
    match from_file {
        Some(f) => f,
        None => cli,
    }
}

/// Whether an absent-or-single address field passes the mailbox grammar.
pub open spec fn spec_opt_address_ok(v: Option<String>) -> bool {
    match v {
        None => true,
        Some(s) => mailbox_accepted(s@),
    }
}

/// Whether every address of an absent-or-list field passes the grammar.
pub open spec fn spec_list_addresses_ok(v: Option<Vec<String>>) -> bool {
    match v {
        None => true,
        Some(l) => forall|i: int| 0 <= i < l@.len() ==> mailbox_accepted((#[trigger] l@[i])@),
    }
}

/// Whether every address of the details passes the mailbox grammar.
pub open spec fn spec_addresses_ok(info: SendInfo) -> bool {
    &&& spec_opt_address_ok(info.from)
    &&& spec_list_addresses_ok(info.to)
    &&& spec_list_addresses_ok(info.cc)
    &&& spec_list_addresses_ok(info.bcc)
}

/// The first address of a list that the grammar rejects, if any.
fn first_bad_in_list(l: &Vec<String>) -> (r: Option<String>)
    ensures
        r is None <==> (forall|i: int| 0 <= i < l@.len() ==> mailbox_accepted((#[trigger] l@[i])@)),
        (match r {
            Some(s) => !mailbox_accepted(s@) && exists|i: int|
                0 <= i < l@.len() && (#[trigger] l@[i])@ == s@,
            None => true,
        }),
{
    let n = l.len();
    let mut i: usize = 0;
    while i < n
        invariant
            i <= n,
            n == l@.len(),
            forall|k: int| 0 <= k < i ==> mailbox_accepted((#[trigger] l@[k])@),
        decreases n - i,
    {
        if !parse_mailbox_ok(&l[i]) {
            let bad = l[i].clone();
            proof {
                assert(bad == l@[i as int]);
                assert(0 <= i < l@.len() && (l@[i as int])@ == bad@);
                assert(!mailbox_accepted(bad@));
            }
            return Some(bad);
        }
        i = i + 1;
    }
    None
}

/// The first address of an absent-or-list field that the grammar rejects.
fn first_bad_address(v: &Option<Vec<String>>) -> (r: Option<String>)
    ensures
        r is None <==> spec_list_addresses_ok(*v),
        (match r {
            Some(s) => !mailbox_accepted(s@) && (match *v {
                Some(l) => exists|i: int| 0 <= i < l@.len() && (#[trigger] l@[i])@ == s@,
                None => false,
            }),
            None => true,
        }),
{
    match v {
        None => None,
        Some(l) => first_bad_in_list(l),
    }
}

/// Whether the given address stands in the named field of the details.
pub open spec fn spec_field_holds(info: SendInfo, field: AddressField, a: String) -> bool {
    match field {
        AddressField::From => info.from == Some(a),
        AddressField::To => match info.to {
            Some(l) => exists|i: int| 0 <= i < l@.len() && (#[trigger] l@[i])@ == a@,
            None => false,
        },
        AddressField::Cc => match info.cc {
            Some(l) => exists|i: int| 0 <= i < l@.len() && (#[trigger] l@[i])@ == a@,
            None => false,
        },
        AddressField::Bcc => match info.bcc {
            Some(l) => exists|i: int| 0 <= i < l@.len() && (#[trigger] l@[i])@ == a@,
            None => false,
        },
    }
}

/// Checks every address of the details against the mailbox grammar, in the
/// order from, to, cc, bcc; the first rejected address is reported with its
/// field, and it is genuinely an address of that field.
pub fn check_addresses(info: &SendInfo) -> (r: Result<(), SendError>)
    ensures
        r is Ok <==> spec_addresses_ok(*info),
        (match r {
            Ok(u) => true,
            Err(e) => match e {
                SendError::BadAddress { field, address } => !mailbox_accepted(address@)
                    && spec_field_holds(*info, field, address),
                _ => false,
            },
        }),
{
    if let Some(from) = &info.from {
        if !parse_mailbox_ok(from) {
            return Err(
                SendError::BadAddress { field: AddressField::From, address: from.clone() },
            );
        }
    }
    if let Some(bad) = first_bad_address(&info.to) {
        return Err(SendError::BadAddress { field: AddressField::To, address: bad });
    }
    if let Some(bad) = first_bad_address(&info.cc) {
        return Err(SendError::BadAddress { field: AddressField::Cc, address: bad });
    }
    if let Some(bad) = first_bad_address(&info.bcc) {
        return Err(SendError::BadAddress { field: AddressField::Bcc, address: bad });
    }
    Ok(())
}

/// Plans the attachments of a send: each path is given the media type its
/// extension maps to, and a path with no known type refuses the whole send,
/// as building it would.
pub fn plan_attachments(paths: &Option<Vec<String>>) -> (r: Result<Vec<AttachmentPlan>, SendError>)
    ensures
        r is Ok <==> (match *paths {
            None => true,
            Some(ps) => forall|i: int| 0 <= i < ps@.len() ==> mime_of_path((#[trigger] ps@[i])@)
                is Some,
        }),
        (match r {
            Ok(plans) => match *paths {
                None => plans@.len() == 0,
                Some(ps) => plans@.len() == ps@.len() && forall|i: int|
                    0 <= i < ps@.len() ==> (#[trigger] plans@[i]).path@ == ps@[i]@ && Some(
                        plans@[i].mime@,
                    ) == mime_of_path(ps@[i]@),
            },
            Err(e) => match e {
                SendError::UnknownAttachmentType { path } => mime_of_path(path@) is None && (
                match *paths {
                    Some(ps) => exists|i: int| 0 <= i < ps@.len() && (#[trigger] ps@[i])@ == path@,
                    None => false,
                }),
                _ => false,
            },
        }),
{
    match paths {
        None => Ok(Vec::new()),
        Some(ps) => plan_attachment_list(ps),
    }
}

/// Plans the attachments of a path list; see `plan_attachments`.
fn plan_attachment_list(ps: &Vec<String>) -> (r: Result<Vec<AttachmentPlan>, SendError>)
    ensures
        r is Ok <==> (forall|i: int|
            0 <= i < ps@.len() ==> mime_of_path((#[trigger] ps@[i])@) is Some),
        (match r {
            Ok(plans) => plans@.len() == ps@.len() && forall|i: int|
                0 <= i < ps@.len() ==> (#[trigger] plans@[i]).path@ == ps@[i]@ && Some(
                    plans@[i].mime@,
                ) == mime_of_path(ps@[i]@),
            Err(e) => match e {
                SendError::UnknownAttachmentType { path } => mime_of_path(path@) is None
                    && exists|i: int| 0 <= i < ps@.len() && (#[trigger] ps@[i])@ == path@,
                _ => false,
            },
        }),
{
    let n = ps.len();
    let mut plans: Vec<AttachmentPlan> = Vec::new();
    let mut i: usize = 0;
    while i < n
        invariant
            i <= n,
            n == ps@.len(),
            plans@.len() == i,
            forall|k: int|
                0 <= k < i ==> (#[trigger] plans@[k]).path@ == ps@[k]@ && Some(plans@[k].mime@)
                    == mime_of_path(ps@[k]@),
        decreases n - i,
    {
        match guess_mime(&ps[i]) {
            Some(mime) => {
                plans.push(AttachmentPlan { path: ps[i].clone(), mime });
            },
            None => {
                proof {
                    assert(0 <= i < ps@.len() && mime_of_path((ps@[i as int])@) is None);
                }
                return Err(SendError::UnknownAttachmentType { path: ps[i].clone() });
            },
        }
        i = i + 1;
    }
    proof {
        assert forall|k: int| 0 <= k < ps@.len() implies mime_of_path((#[trigger] ps@[k])@)
            is Some by {
            assert(Some(plans@[k].mime@) == mime_of_path(ps@[k]@));
        }
    }
    Ok(plans)
}

} // verus!
