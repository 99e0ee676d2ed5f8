//! What showing a message and marking it read come to, from what the caller's functions answer.
use vstd::prelude::*;

use crate::args::lookup_ok;
use crate::mark_read::{
    already_read, fails, marked_read, marks, prints, read_step, InboxReadAction, InboxReadEvent,
    InboxReadState,
};
use crate::model::InboxMessage;
use crate::show::{is_showing, is_shown, labels, picks, show_target, show_text, shows};

verus! {

/// What is shown of a message ends with its whole body and one line end, however long the body
/// is, and begins with the whole name of its file; the sender and the worded moment stand
/// between them.
pub proof fn a_message_is_shown_whole<I: Fn(u64) -> String>(
    iso_label: I,
    message: InboxMessage,
    shown: Seq<char>,
)
    requires
        shows(iso_label, message, shown),
    ensures
        (message.body@ + "\n"@).is_suffix_of(shown),
        ("\n\u{001b}[36m"@ + message.filename@).is_prefix_of(shown),
        exists|label: Seq<char>|
            {
                &&& #[trigger] labels(iso_label, message.timestamp_ms, label)
                &&& shown == "\n\u{001b}[36m"@ + message.filename@
                    + "\u{001b}[0m\n\u{001b}[90mfrom: "@ + message.from@
                    + "\u{001b}[0m\n\u{001b}[90mwhen: "@ + label + "\u{001b}[0m\n\n"@
                    + message.body@ + "\n"@
            },
{
    let label = choose|label: Seq<char>|
        #[trigger] labels(iso_label, message.timestamp_ms, label) && shown == show_text(
            message,
            label,
        );
    reveal_strlit("\u{001b}[0m\n");
    reveal_strlit("\u{001b}[90mfrom: ");
    reveal_strlit("\u{001b}[90mwhen: ");
    reveal_strlit("\u{001b}[0m\n\u{001b}[90mfrom: ");
    reveal_strlit("\u{001b}[0m\n\u{001b}[90mwhen: ");
    assert("\u{001b}[0m\n"@ + "\u{001b}[90mfrom: "@ =~= "\u{001b}[0m\n\u{001b}[90mfrom: "@);
    assert("\u{001b}[0m\n"@ + "\u{001b}[90mwhen: "@ =~= "\u{001b}[0m\n\u{001b}[90mwhen: "@);
    let head = "\n\u{001b}[36m"@ + message.filename@;
    let tail = message.body@ + "\n"@;
    let middle = "\u{001b}[0m\n\u{001b}[90mfrom: "@ + message.from@
        + "\u{001b}[0m\n\u{001b}[90mwhen: "@ + label + "\u{001b}[0m\n\n"@;
    assert(shown =~= head + middle + tail);
    assert(shown.subrange(0, head.len() as int) =~= head);
    assert(shown.subrange(shown.len() - tail.len(), shown.len() as int) =~= tail);
    assert(shown =~= "\n\u{001b}[36m"@ + message.filename@ + "\u{001b}[0m\n\u{001b}[90mfrom: "@
        + message.from@ + "\u{001b}[0m\n\u{001b}[90mwhen: "@ + label + "\u{001b}[0m\n\n"@
        + message.body@ + "\n"@);
}

/// Whether `iso_label` answers a moment as `model` does.
pub open spec fn labels_by<I: Fn(u64) -> String>(
    iso_label: I,
    model: spec_fn(u64) -> Seq<char>,
) -> bool {
    forall|moment: u64, answer: String| #[trigger]
        call_ensures(iso_label, (moment,), answer) ==> answer@ == model(moment)
}

/// The label of a moment is what the caller's function answers to it.
pub proof fn labels_are_the_answers<I: Fn(u64) -> String>(
    iso_label: I,
    model: spec_fn(u64) -> Seq<char>,
    moment: u64,
    label: Seq<char>,
)
    requires
        labels_by(iso_label, model),
        labels(iso_label, moment, label),
    ensures
        label == model(moment),
{
}

/// Whether `pick` picks, by the messages and a name, the message that `model` does.
pub open spec fn picks_by<
    F: for<'a, 'b> Fn(&'a [InboxMessage], Option<&'b str>) -> Option<&'a InboxMessage>,
>(
    pick: F,
    model: spec_fn(Seq<InboxMessage>, Option<Seq<char>>) -> Option<InboxMessage>,
) -> bool {
    forall|list: &[InboxMessage], name: Option<&str>, found: Option<&InboxMessage>| #[trigger]
        call_ensures(pick, (list, name), found) ==> model(
            list@,
            match name {
                Some(name) => Some(name@),
                None => None,
            },
        ) == match found {
            Some(message) => Some(*message),
            None => None,
        }
}

/// A showing shows the message that the caller picks among all of them by the whole name, says
/// which name was not found, or says that there is nothing to show.
pub proof fn a_showing_shows_what_was_picked<
    F: for<'a, 'b> Fn(&'a [InboxMessage], Option<&'b str>) -> Option<&'a InboxMessage>,
    I: Fn(u64) -> String,
>(
    shown: Seq<char>,
    messages: Seq<InboxMessage>,
    target: Option<Seq<char>>,
    pick: F,
    iso_label: I,
    model: spec_fn(Seq<InboxMessage>, Option<Seq<char>>) -> Option<InboxMessage>,
)
    requires
        picks_by(pick, model),
        is_showing(shown, messages, target, pick, iso_label),
    ensures
        messages.len() == 0 ==> shown == "\u{001b}[90mno inbox messages\u{001b}[0m\n"@,
        messages.len() > 0 ==> match model(messages, target) {
            Some(message) => shows(iso_label, message, shown),
            None => shown == "\u{001b}[31merror\u{001b}[0m: not found: "@ + (match target {
                Some(name) => name,
                None => Seq::empty(),
            }) + "\n"@,
        },
{
    if messages.len() > 0 {
        let picked = choose|picked: Option<InboxMessage>|
            {
                &&& #[trigger] picks(pick, messages, target, picked)
                &&& match picked {
                    Some(message) => shows(iso_label, message, shown),
                    None => shown == crate::show::not_found_text(target),
                }
            };
        assert(picked == model(messages, target));
    }
}

/// A showing takes no name or one, and takes one that may name a message whole.
pub proof fn a_showing_takes_one_name(value: Seq<char>, argv: Seq<Seq<char>>)
    ensures
        show_target(Seq::empty()) == Ok::<Option<Seq<char>>, Seq<char>>(None),
        lookup_ok(value) ==> show_target(seq![value]) == Ok::<Option<Seq<char>>, Seq<char>>(
            Some(value),
        ),
        !lookup_ok(value) ==> show_target(seq![value]) == Err::<Option<Seq<char>>, Seq<char>>(
            "inbox: invalid message"@,
        ),
        argv.len() > 1 ==> show_target(argv) == Err::<Option<Seq<char>>, Seq<char>>(
            "usage: maw inbox show [N|name]"@,
        ),
{
    reveal_strlit("inbox: invalid ");
    reveal_strlit("message");
    reveal_strlit("inbox: invalid message");
    assert("inbox: invalid "@ + "message"@ =~= "inbox: invalid message"@);
}

/// Whether `mark` answers a text and the present as `model` does.
pub open spec fn marks_by<M: Fn(&str, u64) -> String>(
    mark: M,
    model: spec_fn(Seq<char>, u64) -> Seq<char>,
) -> bool {
    forall|text: &str, now_ms: u64, answer: String| #[trigger]
        call_ensures(mark, (text, now_ms), answer) ==> answer@ == model(text@, now_ms)
}

/// A message that was found is shown whole. One that was read before ends the command with
/// word of that; of another one the file is read next, and nothing is forgotten of it.
pub proof fn a_found_message_is_shown<I: Fn(u64) -> String, M: Fn(&str, u64) -> String>(
    id: String,
    message: InboxMessage,
    now_ms: u64,
    iso_label: I,
    mark: M,
    action: InboxReadAction,
)
    requires
        read_step(
            InboxReadState::Finding { id },
            InboxReadEvent::Found(Ok(Some(message))),
            now_ms,
            iso_label,
            mark,
            action,
        ),
    ensures
        message.read ==> (action matches InboxReadAction::Finish { result } && (
        result matches Ok(out) && exists|shown: Seq<char>|
            #[trigger] shows(iso_label, message, shown) && out@ == shown
                + "\n\u{001b}[90malready read:\u{001b}[0m "@ + message.filename@ + "\n"@)),
        !message.read ==> (action matches InboxReadAction::ReadFile { state } && (
        state matches InboxReadState::Reading { message: kept, shown } && kept == message && shows(
            iso_label,
            message,
            shown@,
        ))),
{
    let text = choose|text: Seq<char>|
        {
            &&& #[trigger] shows(iso_label, message, text)
            &&& if message.read {
                prints(action, text + already_read(message))
            } else {
                action matches InboxReadAction::ReadFile { state: next }
                    && next matches InboxReadState::Reading { message: kept, shown }
                    && kept == message && shown@ == text
            }
        };
    assert(text + already_read(message) =~= text + "\n\u{001b}[90malready read:\u{001b}[0m "@
        + message.filename@ + "\n"@);
}

/// What is written to a file is what marking makes of the text it holds; where that changes
/// nothing, nothing is written and the command says so.
pub proof fn a_file_gets_its_marked_text<I: Fn(u64) -> String, M: Fn(&str, u64) -> String>(
    message: InboxMessage,
    shown: String,
    content: String,
    now_ms: u64,
    iso_label: I,
    mark: M,
    model: spec_fn(Seq<char>, u64) -> Seq<char>,
    action: InboxReadAction,
)
    requires
        marks_by(mark, model),
        read_step(
            InboxReadState::Reading { message, shown },
            InboxReadEvent::Content(Ok(content)),
            now_ms,
            iso_label,
            mark,
            action,
        ),
    ensures
        model(content@, now_ms) != content@ ==> (action matches InboxReadAction::WriteFile {
            state,
            text,
        } && text@ == model(content@, now_ms) && state == (InboxReadState::Writing { message, shown })),
        model(content@, now_ms) == content@ ==> (action matches InboxReadAction::Finish { result } && (
        result matches Err(error) && error@ == "could not mark read: "@ + message.filename@)),
{
    let marked = choose|marked: Seq<char>|
        {
            &&& #[trigger] marks(mark, content@, now_ms, marked)
            &&& if marked == content@ {
                fails(action, "could not mark read: "@ + message.filename@)
            } else {
                action matches InboxReadAction::WriteFile { state: next, text }
                    && next == (InboxReadState::Writing { message, shown }) && text@ == marked
            }
        };
    assert(marked == model(content@, now_ms));
}

/// What goes wrong on the way ends the command with an error that names the message and says
/// why; once the file is written, the command prints what was shown, and word of it.
pub proof fn marking_ends_with_its_outcome<I: Fn(u64) -> String, M: Fn(&str, u64) -> String>(
    id: String,
    message: InboxMessage,
    shown: String,
    error: String,
    now_ms: u64,
    iso_label: I,
    mark: M,
    action: InboxReadAction,
)
    ensures
        read_step(
            InboxReadState::Finding { id },
            InboxReadEvent::Found(Err(error)),
            now_ms,
            iso_label,
            mark,
            action,
        ) ==> (action matches InboxReadAction::Finish { result } && (result matches Err(told)
            && told@ == error@)),
        read_step(
            InboxReadState::Finding { id },
            InboxReadEvent::Found(Ok(None)),
            now_ms,
            iso_label,
            mark,
            action,
        ) ==> (action matches InboxReadAction::Finish { result } && (result matches Err(told)
            && told@ == "message not found: "@ + id@)),
        read_step(
            InboxReadState::Reading { message, shown },
            InboxReadEvent::Content(Err(error)),
            now_ms,
            iso_label,
            mark,
            action,
        ) ==> (action matches InboxReadAction::Finish { result } && (result matches Err(told)
            && told@ == "inbox: read "@ + message.path@ + ": "@ + error@)),
        read_step(
            InboxReadState::Writing { message, shown },
            InboxReadEvent::Written(Err(error)),
            now_ms,
            iso_label,
            mark,
            action,
        ) ==> (action matches InboxReadAction::Finish { result } && (result matches Err(told)
            && told@ == "inbox: write "@ + message.path@ + ": "@ + error@)),
        read_step(
            InboxReadState::Writing { message, shown },
            InboxReadEvent::Written(Ok(())),
            now_ms,
            iso_label,
            mark,
            action,
        ) ==> (action matches InboxReadAction::Finish { result } && (result matches Ok(out) && out@
            == shown@ + "\n\u{001b}[32m✓\u{001b}[0m marked read: "@ + message.filename@ + "\n"@)),
{
    assert(shown@ + marked_read(message) =~= shown@
        + "\n\u{001b}[32m✓\u{001b}[0m marked read: "@ + message.filename@ + "\n"@);
}

/// A showing is refused for what is wrong with its argument, else fails as the loading did, and
/// else shows a message of all those that were loaded, by the whole name.
pub proof fn a_showing_shows_of_all<
    F: for<'a, 'b> Fn(&'a [InboxMessage], Option<&'b str>) -> Option<&'a InboxMessage>,
    I: Fn(u64) -> String,
>(
    came: Result<Seq<char>, Seq<char>>,
    argv: Seq<Seq<char>>,
    loaded: Result<Vec<InboxMessage>, String>,
    pick: F,
    iso_label: I,
)
    requires
        is_shown(came, argv, loaded, pick, iso_label),
    ensures
        show_target(argv) matches Err(error) ==> came == Err::<Seq<char>, Seq<char>>(error),
        show_target(argv) matches Ok(target) ==> {
            &&& loaded matches Err(error) ==> came == Err::<Seq<char>, Seq<char>>(error@)
            &&& loaded matches Ok(messages) ==> (came matches Ok(shown) && is_showing(
                shown,
                messages@,
                target,
                pick,
                iso_label,
            ))
        },
{
}

} // verus!
