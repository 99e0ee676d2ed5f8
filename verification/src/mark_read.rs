//! Marking a message read, one step at a time.
//!
//! The caller looks the message up, reads its file and writes it. The steps here decide
//! which of these comes next, what is written, and what is printed in the end. How the
//! file's text is marked is the caller's: it comes as an argument.
use vstd::pervasive::unreached;
use vstd::prelude::*;

use crate::args::{inbox_single_id_arg, single_id};
use crate::model::InboxMessage;
use crate::show::{inbox_render_show, shows, takes_moments};
use crate::text::words;

verus! {

/// What marking a message read is waiting for.
#[derive(Debug, PartialEq, Eq)]
pub enum InboxReadState {
    /// The message that goes by this name.
    Finding { id: String },
    /// The text of the message's file.
    Reading { message: InboxMessage, shown: String },
    /// Word that the marked text was written.
    Writing { message: InboxMessage, shown: String },
}

/// What came of the last step.
#[derive(Debug, PartialEq, Eq)]
pub enum InboxReadEvent {
    Found(Result<Option<InboxMessage>, String>),
    Content(Result<String, String>),
    Written(Result<(), String>),
}

/// What is to be done next.
#[derive(Debug, PartialEq, Eq)]
pub enum InboxReadAction {
    /// Read the file of the message, and come back in this state.
    ReadFile { state: InboxReadState },
    /// Write this text to the file of the message, and come back in this state.
    WriteFile { state: InboxReadState, text: String },
    /// Nothing more: this is the command's outcome.
    Finish { result: Result<String, String> },
}

/// Whether the event is the one that the state waits for.
pub open spec fn answers(state: InboxReadState, event: InboxReadEvent) -> bool {
    match state {
        InboxReadState::Finding { .. } => event is Found,
        InboxReadState::Reading { .. } => event is Content,
        InboxReadState::Writing { .. } => event is Written,
    }
}

/// Whether `marked` is an answer of `mark` to a text and the present.
pub open spec fn marks<M: Fn(&str, u64) -> String>(
    mark: M,
    content: Seq<char>,
    now_ms: u64,
    marked: Seq<char>,
) -> bool {
    exists|input: &str, output: String|
        input@ == content && output@ == marked && call_ensures(mark, (input, now_ms), output)
}

/// Whether `mark` takes every text.
pub open spec fn takes_contents<M: Fn(&str, u64) -> String>(mark: M) -> bool {
    forall|content: &str, now_ms: u64| call_requires(mark, (content, now_ms))
}

/// Whether the action ends the command with this error.
pub open spec fn fails(action: InboxReadAction, error: Seq<char>) -> bool {
    action matches InboxReadAction::Finish { result } && result matches Err(told) && told@ == error
}

/// Whether the action ends the command with this output.
pub open spec fn prints(action: InboxReadAction, text: Seq<char>) -> bool {
    action matches InboxReadAction::Finish { result } && result matches Ok(told) && told@ == text
}

/// What is added to a message that was read before.
pub open spec fn already_read(message: InboxMessage) -> Seq<char> {
    "\n\u{001b}[90malready read:\u{001b}[0m "@ + message.filename@ + "\n"@
}

/// What is added to a message once it is marked.
pub open spec fn marked_read(message: InboxMessage) -> Seq<char> {
    "\n\u{001b}[32m✓\u{001b}[0m marked read: "@ + message.filename@ + "\n"@
}

/// Whether the action is what the state and the event call for.
pub open spec fn read_step<I: Fn(u64) -> String, M: Fn(&str, u64) -> String>(
    state: InboxReadState,
    event: InboxReadEvent,
    now_ms: u64,
    iso_label: I,
    mark: M,
    action: InboxReadAction,
) -> bool {
    match (state, event) {
        (InboxReadState::Finding { id }, InboxReadEvent::Found(found)) => match found {
            Err(error) => fails(action, error@),
            Ok(None) => fails(action, "message not found: "@ + id@),
            Ok(Some(message)) => exists|text: Seq<char>|
                {
                    &&& #[trigger] shows(iso_label, message, text)
                    &&& if message.read {
                        prints(action, text + already_read(message))
                    } else {
                        action matches InboxReadAction::ReadFile { state: next }
                            && next matches InboxReadState::Reading { message: kept, shown }
                            && kept == message && shown@ == text
                    }
                },
        },
        (InboxReadState::Reading { message, shown }, InboxReadEvent::Content(content)) => {
            match content {
                Err(error) => fails(action, "inbox: read "@ + message.path@ + ": "@ + error@),
                Ok(content) => exists|marked: Seq<char>|
                    {
                        &&& #[trigger] marks(mark, content@, now_ms, marked)
                        &&& if marked == content@ {
                            fails(action, "could not mark read: "@ + message.filename@)
                        } else {
                            action matches InboxReadAction::WriteFile { state: next, text }
                                && next == (InboxReadState::Writing { message, shown }) && text@
                                == marked
                        }
                    },
            }
        },
        (InboxReadState::Writing { message, shown }, InboxReadEvent::Written(written)) => {
            match written {
                Err(error) => fails(action, "inbox: write "@ + message.path@ + ": "@ + error@),
                Ok(_) => prints(action, shown@ + marked_read(message)),
            }
        },
        _ => false,
    }
}

/// A file is written only for a message that was not read yet, after its text was read,
/// and only with a text that differs from the one it holds.
pub proof fn writes_only_what_changes<I: Fn(u64) -> String, M: Fn(&str, u64) -> String>(
    state: InboxReadState,
    event: InboxReadEvent,
    now_ms: u64,
    iso_label: I,
    mark: M,
    action: InboxReadAction,
)
    requires
        read_step(state, event, now_ms, iso_label, mark, action),
    ensures
        action matches InboxReadAction::WriteFile { text, .. } ==> (state is Reading && (
        event matches InboxReadEvent::Content(Ok(content)) && content@ != text@)),
        action is ReadFile ==> (event matches InboxReadEvent::Found(Ok(Some(message)))
            && !message.read),
        event matches InboxReadEvent::Found(Ok(Some(message))) ==> (message.read
            ==> action is Finish),
{
}

/// A message that was not read yet, and whose file could be read and written, is printed as
/// it is shown, with word that it was marked; and what was written to its file is the marked
/// text of what the file held.
pub proof fn a_marked_message_is_shown<I: Fn(u64) -> String, M: Fn(&str, u64) -> String>(
    id: String,
    message: InboxMessage,
    content: String,
    now_ms: u64,
    iso_label: I,
    mark: M,
    reading: InboxReadState,
    writing: InboxReadState,
    text: String,
    end: InboxReadAction,
)
    requires
        read_step(
            InboxReadState::Finding { id },
            InboxReadEvent::Found(Ok(Some(message))),
            now_ms,
            iso_label,
            mark,
            InboxReadAction::ReadFile { state: reading },
        ),
        read_step(
            reading,
            InboxReadEvent::Content(Ok(content)),
            now_ms,
            iso_label,
            mark,
            InboxReadAction::WriteFile { state: writing, text },
        ),
        read_step(writing, InboxReadEvent::Written(Ok(())), now_ms, iso_label, mark, end),
    ensures
        exists|shown: Seq<char>|
            #[trigger] shows(iso_label, message, shown) && prints(end, shown + marked_read(message)),
        marks(mark, content@, now_ms, text@),
{
}

/// The name of the message to mark, from the command's arguments.
pub fn inbox_begin_mark_read(argv: &[String]) -> (result: Result<InboxReadState, String>)
    ensures
        match single_id(words(argv@), "usage: maw inbox read <id>"@) {
            Ok(id) => result matches Ok(state) && state matches InboxReadState::Finding { id: kept }
                && kept@ == id,
            Err(error) => result matches Err(told) && told@ == error,
        },
{
    let id = inbox_single_id_arg(argv, "usage: maw inbox read <id>")?;
    Ok(InboxReadState::Finding { id: id.to_owned() })
}

/// The next step of marking a message read.
pub fn inbox_run_mark_read<I: Fn(u64) -> String, M: Fn(&str, u64) -> String>(
    state: InboxReadState,
    event: InboxReadEvent,
    now_ms: u64,
    iso_label: &I,
    mark: &M,
) -> (action: InboxReadAction)
    requires
        answers(state, event),
        takes_moments(*iso_label),
        takes_contents(*mark),
    ensures
        read_step(state, event, now_ms, *iso_label, *mark, action),
{
    match (state, event) {
        (InboxReadState::Finding { id }, InboxReadEvent::Found(found)) => match found {
            Err(error) => InboxReadAction::Finish { result: Err(error) },
            Ok(None) => InboxReadAction::Finish {
                result: Err("message not found: ".to_owned().concat(id.as_str())),
            },
            Ok(Some(message)) => {
                let mut shown = inbox_render_show(&message, iso_label);
                if message.read {
                    let ghost text = shown@;
                    shown.append("\n\u{001b}[90malready read:\u{001b}[0m ");
                    shown.append(message.filename.as_str());
                    shown.append("\n");
                    assert(shown@ =~= text + already_read(message));
                    InboxReadAction::Finish { result: Ok(shown) }
                } else {
                    InboxReadAction::ReadFile { state: InboxReadState::Reading { message, shown } }
                }
            },
        },
        (InboxReadState::Reading { message, shown }, InboxReadEvent::Content(content)) => {
            match content {
                Err(error) => InboxReadAction::Finish {
                    result: Err(
                        "inbox: read ".to_owned().concat(message.path.as_str()).concat(
                            ": ",
                        ).concat(error.as_str()),
                    ),
                },
                Ok(content) => {
                    let marked = mark(content.as_str(), now_ms);
                    assert(marks(*mark, content@, now_ms, marked@));
                    if marked == content {
                        InboxReadAction::Finish {
                            result: Err(
                                "could not mark read: ".to_owned().concat(
                                    message.filename.as_str(),
                                ),
                            ),
                        }
                    } else {
                        InboxReadAction::WriteFile {
                            state: InboxReadState::Writing { message, shown },
                            text: marked,
                        }
                    }
                },
            }
        },
        (InboxReadState::Writing { message, shown }, InboxReadEvent::Written(written)) => {
            match written {
                Err(error) => InboxReadAction::Finish {
                    result: Err(
                        "inbox: write ".to_owned().concat(message.path.as_str()).concat(
                            ": ",
                        ).concat(error.as_str()),
                    ),
                },
                Ok(_) => {
                    let ghost text = shown@;
                    let mut out = shown;
                    out.append("\n\u{001b}[32m✓\u{001b}[0m marked read: ");
                    out.append(message.filename.as_str());
                    out.append("\n");
                    assert(out@ =~= text + marked_read(message));
                    InboxReadAction::Finish { result: Ok(out) }
                },
            }
        },
        _ => unreached(),
    }
}

} // verus!
