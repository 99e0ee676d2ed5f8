//! The command `drain` from its arguments to what it prints.
//!
//! How a span of time is worded and how a report is written as JSON is the caller's: both
//! come as arguments.
use vstd::prelude::*;

use crate::args::target_ok;
use crate::decimal::{decimal, decimal_text};
use crate::drain_args::{
    an_oracle_changes_nothing_else, drain_args_fit, drain_plan, inbox_parse_drain_args,
    names_no_oracle, DrainPlan, InboxDrainOptions,
};
use crate::drain_run::{drained_oracle, is_report, InboxDrainItem, InboxDrainResult};
use crate::text::{join_texts, joined, outcome, words};

verus! {

/// Whether `label` is an answer of `wording` to a span of seconds.
pub open spec fn words_span<D: Fn(Option<u64>) -> String>(
    wording: D,
    seconds: u64,
    label: Seq<char>,
) -> bool {
    exists|output: String| output@ == label && call_ensures(wording, (Some(seconds),), output)
}

/// Whether `wording` takes every span.
pub open spec fn takes_spans<D: Fn(Option<u64>) -> String>(wording: D) -> bool {
    forall|span: Option<u64>| call_requires(wording, (span,))
}

/// The first line of a report.
pub open spec fn headline(result: InboxDrainResult) -> Seq<char> {
    result.oracle@ + ": "@ + if result.dry_run {
        "would archive"@
    } else {
        "archived"@
    } + " "@ + decimal(result.archived as nat) + "/"@ + decimal(result.scanned as nat)
        + " scanned inbox message(s) (safe stale matches "@ + decimal(result.matched as nat)
        + ", max "@ + decimal(result.max as nat) + ")"@
}

/// The lines between the first one and those of the items: what remains, and that nothing
/// was found.
pub open spec fn remarks(result: InboxDrainResult) -> Seq<Seq<char>> {
    let left = if result.remaining_matches > 0 {
        seq![
            "   → "@ + decimal(result.remaining_matches as nat)
                + " safe match(es) remain after max cap"@,
        ]
    } else {
        Seq::empty()
    };
    let none = if result.items@.len() == 0 {
        seq!["   → no messages matched the safe stale-ack filter"@]
    } else {
        Seq::empty()
    };
    left + none
}

/// The line of one item, with its age worded.
pub open spec fn item_line(item: InboxDrainItem, age: Seq<char>) -> Seq<char> {
    "   - "@ + item.filename@ + " ["@ + item.reason@ + ", "@ + age + "]"@
}

/// Whether `line` is the line of an item.
pub open spec fn is_item_line<D: Fn(Option<u64>) -> String>(
    line: Seq<char>,
    item: InboxDrainItem,
    wording: D,
) -> bool {
    exists|age: Seq<char>|
        #[trigger] words_span(wording, item.age_seconds, age) && line == item_line(item, age)
}

/// Whether the lines are those of the first ten items.
pub open spec fn are_item_lines<D: Fn(Option<u64>) -> String>(
    lines: Seq<Seq<char>>,
    items: Seq<InboxDrainItem>,
    wording: D,
) -> bool {
    &&& lines.len() == if items.len() < 10 {
        items.len()
    } else {
        10
    }
    &&& forall|k: int|
        0 <= k < lines.len() ==> is_item_line(#[trigger] lines[k], items[k], wording)
}

/// The last line of a report.
pub open spec fn place_line(result: InboxDrainResult) -> Seq<char> {
    "   → "@ + if result.dry_run {
        "preview"@
    } else {
        "processed"@
    } + ": "@ + result.processed_dir@
}

/// Whether `text` is the report in words.
pub open spec fn is_report_text<D: Fn(Option<u64>) -> String>(
    text: Seq<char>,
    result: InboxDrainResult,
    wording: D,
) -> bool {
    exists|lines: Seq<Seq<char>>|
        {
            &&& #[trigger] are_item_lines(lines, result.items@, wording)
            &&& text == joined(
                seq![headline(result)] + remarks(result) + lines + seq![place_line(result)],
                "\n"@,
            ) + "\n"@
        }
}

fn headline_text(result: &InboxDrainResult) -> (line: String)
    ensures
        line@ == headline(*result),
{
    let mut line = result.oracle.clone();
    line.append(": ");
    line.append(
        if result.dry_run {
            "would archive"
        } else {
            "archived"
        },
    );
    line.append(" ");
    line.append(decimal_text(result.archived as u64).as_str());
    line.append("/");
    line.append(decimal_text(result.scanned as u64).as_str());
    line.append(" scanned inbox message(s) (safe stale matches ");
    line.append(decimal_text(result.matched as u64).as_str());
    line.append(", max ");
    line.append(decimal_text(result.max as u64).as_str());
    line.append(")");
    line
}

fn item_text<D: Fn(Option<u64>) -> String>(item: &InboxDrainItem, wording: &D) -> (line: String)
    requires
        takes_spans(*wording),
    ensures
        is_item_line(line@, *item, *wording),
{
    let age = wording(Some(item.age_seconds));
    assert(words_span(*wording, item.age_seconds, age@));
    let mut line = "   - ".to_owned();
    line.append(item.filename.as_str());
    line.append(" [");
    line.append(item.reason.as_str());
    line.append(", ");
    line.append(age.as_str());
    line.append("]");
    line
}

/// The report in words.
pub fn inbox_format_drain_result<D: Fn(Option<u64>) -> String>(
    result: &InboxDrainResult,
    format_duration: &D,
) -> (text: String)
    requires
        takes_spans(*format_duration),
    ensures
        is_report_text(text@, *result, *format_duration),
{
    let mut lines: Vec<String> = Vec::new();
    lines.push(headline_text(result));
    let ghost head = seq![headline(*result)] + remarks(*result);
    if result.remaining_matches > 0 {
        let mut line = "   → ".to_owned();
        line.append(decimal_text(result.remaining_matches as u64).as_str());
        line.append(" safe match(es) remain after max cap");
        lines.push(line);
    }
    if result.items.is_empty() {
        lines.push("   → no messages matched the safe stale-ack filter".to_owned());
    }
    assert(words(lines@) =~= head);
    let ghost mut item_lines: Seq<Seq<char>> = Seq::empty();
    let mut index: usize = 0;
    while index < result.items.len() && index < 10
        invariant
            takes_spans(*format_duration),
            index <= result.items.len(),
            index <= 10,
            item_lines.len() == index,
            words(lines@) =~= head + item_lines,
            forall|k: int|
                0 <= k < item_lines.len() ==> is_item_line(
                    #[trigger] item_lines[k],
                    result.items@[k],
                    *format_duration,
                ),
        decreases result.items.len() - index,
    {
        let line = item_text(&result.items[index], format_duration);
        let ghost before = lines@;
        let ghost text = line@;
        lines.push(line);
        proof {
            assert(words(lines@) =~= words(before).push(text));
            item_lines = item_lines.push(text);
        }
        index += 1;
    }
    assert(are_item_lines(item_lines, result.items@, *format_duration));
    let mut line = "   → ".to_owned();
    line.append(
        if result.dry_run {
            "preview"
        } else {
            "processed"
        },
    );
    line.append(": ");
    line.append(result.processed_dir.as_str());
    lines.push(line);
    assert(words(lines@) =~= head + item_lines + seq![place_line(*result)]);
    join_texts(lines.as_slice(), "\n").concat("\n")
}

/// Whether `result` is what `encode` gives for the value, with a line end behind it.
pub open spec fn is_pretty<T, E: FnOnce(&T) -> Result<String, String>>(
    result: Result<String, String>,
    value: T,
    encode: E,
) -> bool {
    exists|encoded: Result<String, String>|
        {
            &&& call_ensures(encode, (&value,), encoded)
            &&& match encoded {
                Ok(json) => result matches Ok(text) && text@ == json@ + "\n"@,
                Err(error) => result matches Err(told) && told@ == error@,
            }
        }
}

/// A value as JSON, with a line end behind it. `encode` writes it, or says why it cannot.
pub fn inbox_json_pretty<T, E: FnOnce(&T) -> Result<String, String>>(
    value: &T,
    encode: E,
) -> (result: Result<String, String>)
    requires
        call_requires(encode, (value,)),
    ensures
        is_pretty(result, *value, encode),
{
    match encode(value) {
        Ok(json) => Ok(json.concat("\n")),
        Err(error) => Err(error),
    }
}

/// The plan of a drain from its arguments, if it is for the inbox's own oracle.
pub open spec fn local_plan(argv: Seq<Seq<char>>, oracle: Seq<char>) -> Result<
    DrainPlan,
    Seq<char>,
> {
    match drain_plan(argv) {
        Ok(plan) => match plan.oracle {
            Some(asked) if asked != oracle => Err(
                "inbox: native drain currently supports local inbox only"@,
            ),
            _ => Ok(plan),
        },
        Err(error) => Err(error),
    }
}

/// A drain that is planned reports the inbox's own oracle.
pub proof fn planned_drain_is_local(argv: Seq<Seq<char>>, oracle: Seq<char>)
    ensures
        local_plan(argv, oracle) matches Ok(plan) ==> drained_oracle(plan, oracle) == oracle,
{
}

/// Naming the inbox's own oracle is the same as naming none: the plan is the same but for
/// that name, what is refused is refused with the same error, and the reports are the same.
/// The ages that the arguments give fit as they did.
pub proof fn naming_the_own_oracle_is_naming_none(argv: Seq<Seq<char>>, oracle: Seq<char>)
    requires
        target_ok(oracle),
        names_no_oracle(argv),
    ensures
        match local_plan(argv, oracle) {
            Ok(plan) => {
                let named = DrainPlan { oracle: Some(oracle), ..plan };
                &&& local_plan(seq![oracle] + argv, oracle) == Ok::<DrainPlan, Seq<char>>(named)
                &&& drained_oracle(named, oracle) == drained_oracle(plan, oracle)
                &&& forall|
                    result: InboxDrainResult,
                    matched: nat,
                    scanned: nat,
                    dir: Seq<char>,
                    items: Seq<InboxDrainItem>,
                |
                    #[trigger] is_report(result, oracle, named, matched, scanned, dir, items)
                        == is_report(result, oracle, plan, matched, scanned, dir, items)
            },
            Err(error) => local_plan(seq![oracle] + argv, oracle) == Err::<DrainPlan, Seq<char>>(
                error,
            ),
        },
        drain_args_fit(seq![oracle] + argv) == drain_args_fit(argv),
{
    an_oracle_changes_nothing_else(argv, oracle);
}

/// Reads the arguments of a drain of this oracle's inbox.
pub fn inbox_begin_drain(argv: &[String], oracle: &str) -> (result: Result<
    InboxDrainOptions,
    String,
>)
    requires
        drain_args_fit(words(argv@)),
    ensures
        outcome(result) == local_plan(words(argv@), oracle@),
{
    let options = inbox_parse_drain_args(argv)?;
    let elsewhere = match &options.oracle {
        Some(asked) => *asked != oracle.to_owned(),
        None => false,
    };
    if elsewhere {
        return Err("inbox: native drain currently supports local inbox only".to_owned());
    }
    Ok(options)
}

/// Whether the result is what is printed of what a drain came to.
pub open spec fn is_drain_output<
    E: FnOnce(&InboxDrainResult) -> Result<String, String>,
    D: Fn(Option<u64>) -> String,
>(
    result: Result<String, String>,
    json: bool,
    drained: Result<InboxDrainResult, String>,
    encode: E,
    format_duration: D,
) -> bool {
    match drained {
        Err(error) => result matches Err(told) && told@ == error@,
        Ok(report) => if json {
            is_pretty(result, report, encode)
        } else {
            result matches Ok(text) && is_report_text(text@, report, format_duration)
        },
    }
}

/// Prints what a drain came to, as JSON where that was asked for.
pub fn inbox_run_drain<
    E: FnOnce(&InboxDrainResult) -> Result<String, String>,
    D: Fn(Option<u64>) -> String,
>(
    json: bool,
    drained: Result<InboxDrainResult, String>,
    encode: E,
    format_duration: &D,
) -> (result: Result<String, String>)
    requires
        forall|value: &InboxDrainResult| call_requires(encode, (value,)),
        takes_spans(*format_duration),
    ensures
        is_drain_output(result, json, drained, encode, *format_duration),
{
    let report = drained?;
    if json {
        inbox_json_pretty(&report, encode)
    } else {
        Ok(inbox_format_drain_result(&report, format_duration))
    }
}

} // verus!
