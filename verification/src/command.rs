//! The command `inbox`: which part of it the arguments ask for, how it ends, and how a
//! message is handed on.
use vstd::prelude::*;

use crate::args::{guarded, inbox_validate_target_arg, target_ok};
use crate::model::CliOutput;
use crate::text::{begins, begins_with, outcome, same_text, trim, trimmed, words};

verus! {

/// How the command is called.
pub const INBOX_USAGE: &'static str = "maw inbox [--unread] [--from <peer>] [--last N] | status [oracle-name] [--json] [--all] | drain [oracle-name] --safe [--max N] [--older-than-hours H] [--json] [--dry-run] | read <id> | show [N] | write <msg> | pending | approve <id> | reject <id> | show-pending <id>";

/// How many unread messages are too many.
pub const INBOX_UNREAD_RED_THRESHOLD: usize = 50;

/// How long the oldest unread message may lie, in seconds.
pub const INBOX_OLDEST_RED_SECONDS: u64 = 4 * 60 * 60;

/// How long the archive may go without an addition, in seconds.
pub const INBOX_ARCHIVE_RED_SECONDS: u64 = 8 * 60 * 60;

/// How long a message may wait for approval, in seconds.
pub const INBOX_PENDING_TTL_SECONDS: u64 = 30 * 24 * 60 * 60;

/// One command of the program's table.
#[derive(Debug, Clone, Copy)]
pub struct DispatcherEntry {
    pub command: &'static str,
    /// Whether the command's handler is asynchronous.
    pub is_async: bool,
}

/// The part of the program's table that the inbox fills.
pub fn inbox_dispatch() -> (entries: Vec<DispatcherEntry>)
    ensures
        entries@.len() == 1,
        entries@[0].command@ == "inbox"@,
        entries@[0].is_async,
{
    vec![DispatcherEntry { command: "inbox", is_async: true }]
}

/// The parts of the command.
#[derive(Debug, Clone, Copy, PartialEq, Eq, Structural)]
pub enum InboxCommand {
    Pending,
    ShowPending,
    Approve,
    Reject,
    List,
    Read,
    Show,
    Write,
    Status,
    Drain,
}

/// Where the arguments lead.
#[derive(Debug, PartialEq, Eq)]
pub enum InboxRoute {
    /// To this text, which is printed.
    Print { text: String },
    /// To this part, with the arguments from this one on.
    Run { command: InboxCommand, from: usize },
}

/// Where the arguments lead, with texts as sequences of characters.
pub enum RouteText {
    Print { text: Seq<char> },
    Run { command: InboxCommand, from: nat },
}

impl View for InboxRoute {
    type V = RouteText;

    open spec fn view(&self) -> RouteText {
        match self {
            InboxRoute::Print { text } => RouteText::Print { text: text@ },
            InboxRoute::Run { command, from } => RouteText::Run {
                command: *command,
                from: *from as nat,
            },
        }
    }
}

/// The part that a first argument names.
pub open spec fn named_part(word: Seq<char>) -> Option<InboxCommand> {
    if word == "pending"@ || word == "queue"@ {
        Some(InboxCommand::Pending)
    } else if word == "show-pending"@ || word == "pending-show"@ {
        Some(InboxCommand::ShowPending)
    } else if word == "approve"@ {
        Some(InboxCommand::Approve)
    } else if word == "reject"@ {
        Some(InboxCommand::Reject)
    } else if word == "list"@ || word == "ls"@ {
        Some(InboxCommand::List)
    } else if word == "read"@ {
        Some(InboxCommand::Read)
    } else if word == "show"@ {
        Some(InboxCommand::Show)
    } else if word == "write"@ {
        Some(InboxCommand::Write)
    } else if word == "status"@ {
        Some(InboxCommand::Status)
    } else if word == "drain"@ {
        Some(InboxCommand::Drain)
    } else {
        None
    }
}

/// Where the arguments lead: to the usage, where help is wanted; to the part that the first
/// one names, with the others; to a listing with all of them, where the first one is a flag
/// or there is none; and else nowhere.
pub open spec fn route(argv: Seq<Seq<char>>, wants_help: bool) -> Result<RouteText, Seq<char>> {
    if wants_help {
        Ok(RouteText::Print { text: "usage: "@ + INBOX_USAGE@ + "\n"@ })
    } else if argv.len() == 0 {
        Ok(RouteText::Run { command: InboxCommand::List, from: 0 })
    } else {
        match named_part(argv[0]) {
            Some(command) => Ok(RouteText::Run { command, from: 1 }),
            None => if begins(argv[0], '-') {
                Ok(RouteText::Run { command: InboxCommand::List, from: 0 })
            } else {
                Err("inbox: unknown subcommand "@ + argv[0])
            },
        }
    }
}

/// Flags alone list the inbox, as they do behind `list`.
pub proof fn flags_alone_list(flags: Seq<Seq<char>>)
    requires
        flags.len() > 0 ==> begins(flags[0], '-'),
    ensures
        route(flags, false) == Ok::<RouteText, Seq<char>>(
            RouteText::Run { command: InboxCommand::List, from: 0 },
        ),
        route(seq!["list"@] + flags, false) == Ok::<RouteText, Seq<char>>(
            RouteText::Run { command: InboxCommand::List, from: 1 },
        ),
        (seq!["list"@] + flags).skip(1) == flags,
{
    reveal_strlit("pending");
    reveal_strlit("queue");
    reveal_strlit("show-pending");
    reveal_strlit("pending-show");
    reveal_strlit("approve");
    reveal_strlit("reject");
    reveal_strlit("list");
    reveal_strlit("ls");
    reveal_strlit("read");
    reveal_strlit("show");
    reveal_strlit("write");
    reveal_strlit("status");
    reveal_strlit("drain");
    let argv = seq!["list"@] + flags;
    assert(argv.skip(1) =~= flags);
    assert(argv[0] == "list"@);
    assert("list"@[0] == 'l' && "pending"@[0] == 'p' && "queue"@[0] == 'q');
    assert("show-pending"@[0] == 's' && "pending-show"@[0] == 'p');
    assert("approve"@[0] == 'a' && "reject"@[0] == 'r' && "ls"@[0] == 'l' && "read"@[0] == 'r');
    assert("show"@[0] == 's' && "write"@[0] == 'w' && "status"@[0] == 's' && "drain"@[0] == 'd');
}

/// Only `approve` as the first argument leads to the part that hands messages on.
pub proof fn only_approve_approves(argv: Seq<Seq<char>>, wants_help: bool)
    ensures
        (route(argv, wants_help) matches Ok(RouteText::Run { command, .. }) && command
            == InboxCommand::Approve) <==> !wants_help && argv.len() > 0 && argv[0] == "approve"@,
{
    reveal_strlit("approve");
    reveal_strlit("pending");
    reveal_strlit("queue");
    reveal_strlit("show-pending");
    reveal_strlit("pending-show");
    assert("approve"@[0] == 'a' && "pending"@[0] == 'p' && "queue"@[0] == 'q');
    assert("show-pending"@[0] == 's' && "pending-show"@[0] == 'p');
}

/// Finds where the arguments lead. `wants_help` says whether help is asked for before
/// anything else.
pub fn inbox_run_at(argv: &[String], wants_help: bool) -> (result: Result<InboxRoute, String>)
    ensures
        outcome(result) == route(words(argv@), wants_help),
{
    if wants_help {
        let text = "usage: ".to_owned().concat(INBOX_USAGE).concat("\n");
        return Ok(InboxRoute::Print { text });
    }
    if argv.len() == 0 {
        return Ok(InboxRoute::Run { command: InboxCommand::List, from: 0 });
    }
    let word = argv[0].as_str();
    assert(word@ == words(argv@)[0]);
    let command = if same_text(word, "pending") || same_text(word, "queue") {
        InboxCommand::Pending
    } else if same_text(word, "show-pending") || same_text(word, "pending-show") {
        InboxCommand::ShowPending
    } else if same_text(word, "approve") {
        InboxCommand::Approve
    } else if same_text(word, "reject") {
        InboxCommand::Reject
    } else if same_text(word, "list") || same_text(word, "ls") {
        InboxCommand::List
    } else if same_text(word, "read") {
        InboxCommand::Read
    } else if same_text(word, "show") {
        InboxCommand::Show
    } else if same_text(word, "write") {
        InboxCommand::Write
    } else if same_text(word, "status") {
        InboxCommand::Status
    } else if same_text(word, "drain") {
        InboxCommand::Drain
    } else if begins_with(word, '-') {
        return Ok(InboxRoute::Run { command: InboxCommand::List, from: 0 });
    } else {
        return Err("inbox: unknown subcommand ".to_owned().concat(word));
    };
    Ok(InboxRoute::Run { command, from: 1 })
}

/// Whether the output is that of a command that came to this.
pub open spec fn ends_with(output: CliOutput, came: Result<Seq<char>, Seq<char>>) -> bool {
    match came {
        Ok(text) => output.code == 0 && output.stdout@ == text && output.stderr@ == Seq::<
            char,
        >::empty(),
        Err(message) => output.code == 1 && output.stdout@ == Seq::<char>::empty()
            && output.stderr@ == message + "\n"@,
    }
}

/// How the command ends: what it prints and with which code.
pub fn run_inbox_command(came: Result<String, String>) -> (output: CliOutput)
    ensures
        ends_with(output, outcome(came)),
{
    match came {
        Ok(stdout) => CliOutput { code: 0, stdout, stderr: String::new() },
        Err(message) => CliOutput {
            code: 1,
            stdout: String::new(),
            stderr: message.concat("\n"),
        },
    }
}

/// A message that is to be handed on by `maw hey`.
#[derive(Debug, PartialEq, Eq)]
pub struct InboxHey {
    pub query: String,
    pub message: String,
    pub acl_bypass: bool,
}

/// What `maw hey` is answered with, from what it left.
pub open spec fn hey_answer(output: CliOutput) -> Result<(), Seq<char>> {
    if output.code == 0 {
        Ok(())
    } else {
        Err(
            "inbox: maw hey failed: "@ + if trim(output.stderr@).len() == 0 {
                trim(output.stdout@)
            } else {
                trim(output.stderr@)
            },
        )
    }
}

/// Whether the result is what is handed on of a message: nothing unless the query may name a
/// peer.
pub open spec fn is_request(
    result: Result<InboxHey, String>,
    query: Seq<char>,
    message: Seq<char>,
    acl_bypass: bool,
) -> bool {
    match guarded(target_ok(query), "query"@) {
        Ok(_) => result matches Ok(hey) && hey.query@ == query && hey.message@ == message
            && hey.acl_bypass == acl_bypass,
        Err(error) => result matches Err(told) && told@ == error,
    }
}

/// The sender that hands messages on by `maw hey`.
#[derive(Debug, Clone, Copy)]
pub struct InboxSystemSender;

impl InboxSystemSender {
    /// What is handed on: nothing unless the query may name a peer, and the message as it
    /// is, whatever it looks like.
    pub fn inbox_request(&self, query: &str, message: &str, acl_bypass: bool) -> (result: Result<
        InboxHey,
        String,
    >)
        ensures
            is_request(result, query@, message@, acl_bypass),
    {
        inbox_validate_target_arg(query, "query")?;
        Ok(InboxHey { query: query.to_owned(), message: message.to_owned(), acl_bypass })
    }

    /// Whether the message was handed on, from what `maw hey` left.
    pub fn inbox_send(&self, output: &CliOutput) -> (result: Result<(), String>)
        ensures
            outcome(result) == hey_answer(*output),
    {
        if output.code == 0 {
            return Ok(());
        }
        let told = trimmed(output.stderr.as_str());
        let detail = if told.is_empty() {
            trimmed(output.stdout.as_str())
        } else {
            told
        };
        Err("inbox: maw hey failed: ".to_owned().concat(detail))
    }
}

} // verus!
