use vstd::prelude::*;

verus! {

/// The command-line surface of the tool. The structs here are the plain
/// data model; reading them from the actual command line, and the argument
/// constraints that go with that, live with the binary around this library.
pub struct Args {
    pub cmds: Commands,
}

/// The subcommands the tool offers.
pub enum Commands {
    /// Trash messages selected by label, by explicit identifier or by filter.
    Trash(Trash),
    /// Send a message through a mail relay.
    Send(Box<Send>),
    /// List every label of the mailbox.
    Labels,
    /// Export messages matching a filter into a text file.
    Filter(Box<FilterWithOutput>),
}

/// The trash subcommand: what to trash and how wide the task pool is.
pub struct Trash {
    pub trash_opt: TrashOptions,
    /// Worker/feeder pool size; the caller keeps it between 1 and 10.
    pub threads_num: i64,
}

/// The three ways of selecting messages to trash.
pub enum TrashOptions {
    ByMsgIds(MsgIds),
    ByLabels(Labels),
    ByFilter(Box<Filter>),
}

/// Explicit message identifiers.
pub struct MsgIds {
    pub msg_ids: Vec<String>,
}

/// Label names within the mailbox.
pub struct Labels {
    pub labels: Vec<String>,
}

/// Everything a send needs: addresses, content, attachments and the relay
/// account to send through.
pub struct Send {
    pub from: Option<String>,
    pub to: Option<Vec<String>>,
    pub cc: Option<Vec<String>>,
    pub bcc: Option<Vec<String>>,
    pub subject: Option<String>,
    pub description: Option<String>,
    /// Paths of the files to attach.
    pub attachment: Option<Vec<String>>,
    pub username: Option<String>,
    pub password: Option<String>,
    /// The host of the mail relay to send through.
    pub relay: String,
    /// A file holding the message fields; when given it takes precedence.
    pub json_file: Option<String>,
}

/// The message fields of a send, without the relay account.
pub struct SendInfo {
    pub from: Option<String>,
    pub to: Option<Vec<String>>,
    pub cc: Option<Vec<String>>,
    pub bcc: Option<Vec<String>>,
    pub subject: Option<String>,
    pub description: Option<String>,
    pub attachment: Option<Vec<String>>,
}

/// A filter given as its own subcommand.
pub enum FilterCmd {
    Filter(Filter),
}

/// A mailbox search: each field, when present, contributes one clause per
/// value to the query string sent to the mail service.
pub struct Filter {
    /// Words or phrases the message must contain.
    pub words: Option<Vec<String>>,
    pub from: Option<Vec<String>>,
    pub to: Option<Vec<String>>,
    pub cc: Option<Vec<String>>,
    pub bcc: Option<Vec<String>>,
    pub subject: Option<Vec<String>>,
    /// Words the message must not contain.
    pub remove_words: Option<Vec<String>>,
    pub labels: Option<Vec<String>>,
    /// Icons the message carries.
    pub has: Option<Vec<String>>,
    /// Mailing lists the message belongs to.
    pub list: Option<Vec<String>>,
    /// Attachment names or file types.
    pub filename: Option<Vec<String>>,
    /// Folders to search in.
    pub in_folders: Option<Vec<String>>,
    /// States such as starred, snoozed, unread, read or muted.
    pub is_states: Option<Vec<String>>,
    pub after: Option<String>,
    pub before: Option<String>,
    pub older_than: Option<String>,
    pub newer_than: Option<String>,
    pub deliveredto: Option<Vec<String>>,
    pub category: Option<Vec<String>>,
    /// Exact size in bytes.
    pub size: Option<usize>,
    /// Larger than this many bytes.
    pub larger: Option<usize>,
    /// Smaller than this many bytes.
    pub smaller: Option<usize>,
    pub rfc822msgid: Option<Vec<String>>,
    /// A text file holding a ready-made query; read where the file lives.
    pub text_file: Option<String>,
    /// A file holding the filter fields; read where the file lives.
    pub json_file: Option<String>,
}

/// The export subcommand: a filter, the output file and the pool size.
pub struct FilterWithOutput {
    pub filter: Filter,
    /// Name of the text file that receives the matching messages.
    pub output: String,
    /// Worker/feeder pool size; the caller keeps it between 1 and 10.
    pub threads: i64,
}

} // verus!
