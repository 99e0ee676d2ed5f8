//! Showing one message.
//!
//! How a moment is worded and which message a name picks is the caller's: both come as
//! arguments.
use vstd::prelude::*;

use crate::args::{guarded, inbox_validate_lookup_arg, lookup_ok};
use crate::model::InboxMessage;
use crate::table::nothing_shown;
use crate::text::{outcome, words};

verus! {

/// Whether `label` is an answer of `iso_label` to a moment.
pub open spec fn labels<I: Fn(u64) -> String>(
    iso_label: I,
    timestamp_ms: u64,
    label: Seq<char>,
) -> bool {
    exists|output: String| output@ == label && call_ensures(iso_label, (timestamp_ms,), output)
}

/// Whether `iso_label` takes every moment.
pub open spec fn takes_moments<I: Fn(u64) -> String>(iso_label: I) -> bool {
    forall|timestamp_ms: u64| call_requires(iso_label, (timestamp_ms,))
}

/// A message as it is shown, with its moment worded.
pub open spec fn show_text(message: InboxMessage, label: Seq<char>) -> Seq<char> {
    "\n\u{001b}[36m"@ + message.filename@ + "\u{001b}[0m\n"@ + "\u{001b}[90mfrom: "@
        + message.from@ + "\u{001b}[0m\n"@ + "\u{001b}[90mwhen: "@ + label + "\u{001b}[0m\n\n"@
        + message.body@ + "\n"@
}

/// Whether `shown` is the message as it is shown.
pub open spec fn shows<I: Fn(u64) -> String>(
    iso_label: I,
    message: InboxMessage,
    shown: Seq<char>,
) -> bool {
    exists|label: Seq<char>|
        #[trigger] labels(iso_label, message.timestamp_ms, label) && shown == show_text(
            message,
            label,
        )
}

/// The message as it is shown.
pub fn inbox_render_show<I: Fn(u64) -> String>(message: &InboxMessage, iso_label: &I) -> (shown:
    String)
    requires
        takes_moments(*iso_label),
    ensures
        shows(*iso_label, *message, shown@),
{
    let label = iso_label(message.timestamp_ms);
    let mut out = "\n\u{001b}[36m".to_owned();
    out.append(message.filename.as_str());
    out.append("\u{001b}[0m\n");
    out.append("\u{001b}[90mfrom: ");
    out.append(message.from.as_str());
    out.append("\u{001b}[0m\n");
    out.append("\u{001b}[90mwhen: ");
    out.append(label.as_str());
    out.append("\u{001b}[0m\n\n");
    out.append(message.body.as_str());
    out.append("\n");
    assert(labels(*iso_label, message.timestamp_ms, label@));
    assert(out@ =~= show_text(*message, label@));
    out
}

/// Whether `picked` is an answer of `pick` to the messages and a name.
pub open spec fn picks<
    F: for<'a, 'b> Fn(&'a [InboxMessage], Option<&'b str>) -> Option<&'a InboxMessage>,
>(
    pick: F,
    messages: Seq<InboxMessage>,
    target: Option<Seq<char>>,
    picked: Option<InboxMessage>,
) -> bool {
    exists|list: &[InboxMessage], name: Option<&str>, found: Option<&InboxMessage>|
        {
            &&& list@ == messages
            &&& match name {
                Some(name) => target == Some(name@),
                None => target is None,
            }
            &&& match found {
                Some(found) => picked == Some(*found),
                None => picked is None,
            }
            &&& call_ensures(pick, (list, name), found)
        }
}

/// Whether `pick` takes every list of messages and every name.
pub open spec fn takes_names<
    F: for<'a, 'b> Fn(&'a [InboxMessage], Option<&'b str>) -> Option<&'a InboxMessage>,
>(pick: F) -> bool {
    forall|list: &[InboxMessage], name: Option<&str>| call_requires(pick, (list, name))
}

/// The name that the arguments of a showing give, if any; at most one, and one that may
/// name a message.
pub open spec fn show_target(argv: Seq<Seq<char>>) -> Result<Option<Seq<char>>, Seq<char>> {
    if argv.len() > 1 {
        Err("usage: maw inbox show [N|name]"@)
    } else if argv.len() == 1 {
        match guarded(lookup_ok(argv[0]), "message"@) {
            Ok(_) => Ok(Some(argv[0])),
            Err(error) => Err(error),
        }
    } else {
        Ok(None)
    }
}

/// What is printed where no message goes by the name.
pub open spec fn not_found_text(target: Option<Seq<char>>) -> Seq<char> {
    "\u{001b}[31merror\u{001b}[0m: not found: "@ + match target {
        Some(name) => name,
        None => Seq::empty(),
    } + "\n"@
}

/// Whether `shown` is what a showing of these messages prints.
pub open spec fn is_showing<
    F: for<'a, 'b> Fn(&'a [InboxMessage], Option<&'b str>) -> Option<&'a InboxMessage>,
    I: Fn(u64) -> String,
>(
    shown: Seq<char>,
    messages: Seq<InboxMessage>,
    target: Option<Seq<char>>,
    pick: F,
    iso_label: I,
) -> bool {
    if messages.len() == 0 {
        shown == nothing_shown()
    } else {
        exists|picked: Option<InboxMessage>|
            {
                &&& #[trigger] picks(pick, messages, target, picked)
                &&& match picked {
                    Some(message) => shows(iso_label, message, shown),
                    None => shown == not_found_text(target),
                }
            }
    }
}

/// The name that the arguments of a showing give, if any.
pub fn inbox_show_target(argv: &[String]) -> (result: Result<Option<&str>, String>)
    ensures
        match result {
            Ok(Some(name)) => show_target(words(argv@)) == Ok::<Option<Seq<char>>, Seq<char>>(
                Some(name@),
            ),
            Ok(None) => show_target(words(argv@)) == Ok::<Option<Seq<char>>, Seq<char>>(None),
            Err(error) => show_target(words(argv@)) == Err::<Option<Seq<char>>, Seq<char>>(error@),
        },
{
    if argv.len() > 1 {
        return Err("usage: maw inbox show [N|name]".to_owned());
    }
    if argv.len() == 1 {
        let value = argv[0].as_str();
        assert(value@ == words(argv@)[0]);
        inbox_validate_lookup_arg(value, "message")?;
        return Ok(Some(value));
    }
    Ok(None)
}

/// Whether a showing of what was loaded came to this: the argument decides first, then whether
/// the messages could be loaded.
pub open spec fn is_shown<
    F: for<'a, 'b> Fn(&'a [InboxMessage], Option<&'b str>) -> Option<&'a InboxMessage>,
    I: Fn(u64) -> String,
>(
    came: Result<Seq<char>, Seq<char>>,
    argv: Seq<Seq<char>>,
    loaded: Result<Vec<InboxMessage>, String>,
    pick: F,
    iso_label: I,
) -> bool {
    match show_target(argv) {
        Err(error) => came == Err::<Seq<char>, Seq<char>>(error),
        Ok(target) => match loaded {
            Err(error) => came == Err::<Seq<char>, Seq<char>>(error@),
            Ok(messages) => came matches Ok(shown) && is_showing(
                shown,
                messages@,
                target,
                pick,
                iso_label,
            ),
        },
    }
}

/// Shows the message that the argument names: the argument decides first, then whether the
/// messages could be loaded.
pub fn inbox_run_show<
    F: for<'a, 'b> Fn(&'a [InboxMessage], Option<&'b str>) -> Option<&'a InboxMessage>,
    I: Fn(u64) -> String,
>(
    argv: &[String],
    loaded: Result<Vec<InboxMessage>, String>,
    pick: &F,
    iso_label: &I,
) -> (result: Result<String, String>)
    requires
        takes_names(*pick),
        takes_moments(*iso_label),
    ensures
        is_shown(outcome(result), words(argv@), loaded, *pick, *iso_label),
{
    let target = inbox_show_target(argv)?;
    let messages = loaded?;
    if messages.is_empty() {
        return Ok("\u{001b}[90mno inbox messages\u{001b}[0m\n".to_owned());
    }
    let found = pick(messages.as_slice(), target);
    let ghost name = match target {
        Some(value) => Some(value@),
        None => None,
    };
    match found {
        Some(message) => {
            assert(picks(*pick, messages@, name, Some(*message)));
            Ok(inbox_render_show(message, iso_label))
        },
        None => {
            assert(picks(*pick, messages@, name, None));
            let mut out = "\u{001b}[31merror\u{001b}[0m: not found: ".to_owned();
            if let Some(value) = target {
                out.append(value);
            }
            out.append("\n");
            assert(out@ =~= not_found_text(name));
            Ok(out)
        },
    }
}

} // verus!
