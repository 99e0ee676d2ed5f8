//! What listing the inbox comes to: argument by argument, message by message, row by row.
use vstd::prelude::*;

use crate::args::{count_value, target_ok};
use crate::decimal::decimal;
use crate::list::{
    entries, flag_heads, list_filter, list_filter_looks_ahead, listed, no_filter,
    numbered, passes, row_numbers_are_stable, InboxListOptions, InboxListRow, ListFilter,
};
use crate::model::InboxMessage;
use crate::table::{are_rows, is_listing, is_row, is_table, shapes, words_time};
use crate::text::{begins, in_a_row, on_one_line};

verus! {

/// The options are seen as they are.
pub proof fn list_options_are_seen_whole(options: InboxListOptions)
    ensures
        options@.unread == options.unread,
        options.from is None <==> options@.from is None,
        options.from matches Some(from) ==> options@.from == Some(from@),
        options.last is None <==> options@.last is None,
        options.last matches Some(last) ==> options@.last == Some(last as nat),
{
}

/// Without arguments a listing shows everything, and has no limit of its own.
pub proof fn no_arguments_show_everything(filter: ListFilter)
    ensures
        list_filter(Seq::empty(), 0, filter) == Ok::<ListFilter, Seq<char>>(filter),
        !no_filter().unread && no_filter().from is None && no_filter().last is None,
{
}

/// `--unread` hides what was read, and changes nothing else, whatever arguments follow.
pub proof fn unread_is_heard(rest: Seq<Seq<char>>, filter: ListFilter)
    ensures
        list_filter(seq!["--unread"@] + rest, 0, filter) == list_filter(
            rest,
            0,
            ListFilter { unread: true, ..filter },
        ),
{
    let argv = seq!["--unread"@] + rest;
    assert(argv[0] == "--unread"@);
    list_filter_looks_ahead(seq!["--unread"@], rest, 0, ListFilter { unread: true, ..filter });
}

/// A sender is taken whole, in either spelling, whatever arguments follow; one that may not
/// name a peer is invalid.
pub proof fn senders_are_heard(value: Seq<char>, rest: Seq<Seq<char>>, filter: ListFilter)
    requires
        !begins(value, '-'),
    ensures
        target_ok(value) ==> list_filter(seq!["--from"@, value] + rest, 0, filter) == list_filter(
            rest,
            0,
            ListFilter { from: Some(value), ..filter },
        ),
        target_ok(value) ==> list_filter(seq!["--from="@ + value] + rest, 0, filter) == list_filter(
            rest,
            0,
            ListFilter { from: Some(value), ..filter },
        ),
        !target_ok(value) ==> list_filter(seq!["--from"@, value] + rest, 0, filter) == Err::<
            ListFilter,
            Seq<char>,
        >("inbox: invalid from"@),
        !target_ok(value) ==> list_filter(seq!["--from="@ + value] + rest, 0, filter) == Err::<
            ListFilter,
            Seq<char>,
        >("inbox: invalid from"@),
{
    crate::list::from_spellings_agree(value, rest, filter);
    flag_heads(value);
    let argv = seq!["--from"@, value] + rest;
    assert(argv[0] == "--from"@ && argv[1] == value);
    reveal_strlit("inbox: invalid ");
    reveal_strlit("from");
    reveal_strlit("inbox: invalid from");
    assert("inbox: invalid "@ + "from"@ =~= "inbox: invalid from"@);
    list_filter_looks_ahead(
        seq!["--from"@, value],
        rest,
        0,
        ListFilter { from: Some(value), ..filter },
    );
}

/// A row limit is the count that its text gives, in either spelling, whatever arguments
/// follow; a text that gives none is refused with the error of the count.
pub proof fn limits_are_heard(value: Seq<char>, rest: Seq<Seq<char>>, filter: ListFilter)
    requires
        !begins(value, '-'),
    ensures
        count_value(value, "--last"@) matches Ok(count) ==> {
            &&& list_filter(seq!["--last"@, value] + rest, 0, filter) == list_filter(
                rest,
                0,
                ListFilter { last: Some(count), ..filter },
            )
            &&& list_filter(seq!["--last="@ + value] + rest, 0, filter) == list_filter(
                rest,
                0,
                ListFilter { last: Some(count), ..filter },
            )
        },
        count_value(value, "--last"@) matches Err(error) ==> {
            &&& list_filter(seq!["--last"@, value] + rest, 0, filter) == Err::<
                ListFilter,
                Seq<char>,
            >(error)
            &&& list_filter(seq!["--last="@ + value] + rest, 0, filter) == Err::<
                ListFilter,
                Seq<char>,
            >(error)
        },
{
    crate::list::last_spellings_agree(value, rest, filter);
    flag_heads(value);
    let argv = seq!["--last"@, value] + rest;
    assert(argv[0] == "--last"@ && argv[1] == value);
    if let Ok(count) = count_value(value, "--last"@) {
        list_filter_looks_ahead(
            seq!["--last"@, value],
            rest,
            0,
            ListFilter { last: Some(count), ..filter },
        );
    }
}

/// Any other argument ends the reading: one that begins with `-` is unknown, another one is
/// not expected, and a flag without its value says so.
pub proof fn other_arguments_are_refused(arg: Seq<char>, rest: Seq<Seq<char>>, filter: ListFilter)
    requires
        arg != "--unread"@,
        arg != "--from"@,
        arg != "--last"@,
        !"--from="@.is_prefix_of(arg),
        !"--last="@.is_prefix_of(arg),
    ensures
        begins(arg, '-') ==> list_filter(seq![arg] + rest, 0, filter) == Err::<
            ListFilter,
            Seq<char>,
        >("inbox: unknown argument "@ + arg),
        !begins(arg, '-') ==> list_filter(seq![arg] + rest, 0, filter) == Err::<
            ListFilter,
            Seq<char>,
        >("inbox: unexpected argument "@ + arg),
{
    assert((seq![arg] + rest)[0] == arg);
}

/// A flag that stands last, or before a text that begins with `-`, has no value.
pub proof fn flags_without_values_are_refused(
    value: Seq<char>,
    rest: Seq<Seq<char>>,
    filter: ListFilter,
)
    requires
        begins(value, '-'),
    ensures
        list_filter(seq!["--from"@], 0, filter) is Err,
        list_filter(seq!["--last"@], 0, filter) is Err,
        list_filter(seq!["--from"@, value] + rest, 0, filter) is Err,
        list_filter(seq!["--last"@, value] + rest, 0, filter) is Err,
{
    flag_heads(Seq::empty());
    assert((seq!["--from"@, value] + rest)[0] == "--from"@);
    assert((seq!["--from"@, value] + rest)[1] == value);
    assert((seq!["--last"@, value] + rest)[0] == "--last"@);
    assert((seq!["--last"@, value] + rest)[1] == value);
}

/// The rows are seen as they are: every one, with its number and its message.
pub proof fn rows_are_seen_whole(rows: Seq<InboxListRow>)
    ensures
        entries(rows).len() == rows.len(),
        forall|k: int|
            0 <= k < rows.len() ==> (#[trigger] entries(rows)[k]).0 == rows[k].id && entries(
                rows,
            )[k].1 == *rows[k].message,
{
}

/// A listing has a row for every message of the sender asked for, character for character,
/// that was not read where only unread ones are asked for; it has no other row; and each row
/// carries the message's place in the inbox, in rising order.
pub proof fn a_listing_shows_exactly_what_was_asked(
    messages: Seq<InboxMessage>,
    filter: ListFilter,
)
    ensures
        forall|k: int|
            0 <= k < listed(messages, filter).len() ==> {
                let row = #[trigger] listed(messages, filter)[k];
                &&& 1 <= row.0 <= messages.len()
                &&& row.1 == messages[row.0 - 1]
                &&& filter.unread ==> !row.1.read
                &&& filter.from matches Some(from) ==> row.1.from@ == from
            },
        forall|i: int|
            0 <= i < messages.len() && (filter.unread ==> !(#[trigger] messages[i]).read) && (
            filter.from matches Some(from) ==> messages[i].from@ == from) ==> listed(
                messages,
                filter,
            ).contains(((i + 1) as nat, messages[i])),
        forall|j: int, k: int|
            0 <= j < k < listed(messages, filter).len() ==> (#[trigger] listed(
                messages,
                filter,
            )[j]).0 < (#[trigger] listed(messages, filter)[k]).0,
{
    row_numbers_are_stable(messages, filter);
    assert forall|i: int|
        0 <= i < messages.len() && (filter.unread ==> !(#[trigger] messages[i]).read) && (
        filter.from matches Some(from) ==> messages[i].from@ == from) implies listed(
        messages,
        filter,
    ).contains(((i + 1) as nat, messages[i])) by {
        assert(passes(messages[i], filter));
    }
}

/// One more message at the end of the inbox leaves the rows before it as they are, and adds its
/// own exactly where it is asked for.
pub proof fn one_more_message(messages: Seq<InboxMessage>, message: InboxMessage, filter: ListFilter)
    ensures
        (filter.unread ==> !message.read) && (filter.from matches Some(from) ==> message.from@
            == from) ==> listed(messages.push(message), filter) == listed(messages, filter).push(
            (messages.len() + 1, message),
        ),
        !((filter.unread ==> !message.read) && (filter.from matches Some(from) ==> message.from@
            == from)) ==> listed(messages.push(message), filter) == listed(messages, filter),
{
    reveal_with_fuel(Seq::<_>::filter, 2);
    let all = messages.push(message);
    assert(numbered(all).drop_last() =~= numbered(messages));
    assert(numbered(all).last() == (messages.len() + 1, message));
}

/// Whether `shape` answers a text and a width as `model` does.
pub open spec fn shapes_by<T: Fn(&str, usize) -> String>(
    shape: T,
    model: spec_fn(Seq<char>, usize) -> Seq<char>,
) -> bool {
    forall|text: &str, width: usize, answer: String| #[trigger]
        call_ensures(shape, (text, width), answer) ==> answer@ == model(text@, width)
}

/// Whether `wording` answers two moments as `model` does.
pub open spec fn words_by<R: Fn(u64, u64) -> String>(
    wording: R,
    model: spec_fn(u64, u64) -> Seq<char>,
) -> bool {
    forall|then_ms: u64, now_ms: u64, answer: String| #[trigger]
        call_ensures(wording, (then_ms, now_ms), answer) ==> answer@ == model(then_ms, now_ms)
}

/// The row of a message, from what the caller's functions make of its sender, its age and its
/// body.
pub open spec fn row_of(
    number: nat,
    message: InboxMessage,
    now_ms: u64,
    cut: spec_fn(Seq<char>, usize) -> Seq<char>,
    fill: spec_fn(Seq<char>, usize) -> Seq<char>,
    age: spec_fn(u64, u64) -> Seq<char>,
) -> Seq<char> {
    (if number < 10 {
        "   "@
    } else {
        "  "@
    }) + decimal(number) + (if message.read {
        " \u{001b}[90m○\u{001b}[0m "@
    } else {
        " \u{001b}[32m●\u{001b}[0m "@
    }) + fill(cut(message.from@, 14), 14) + " "@ + fill(age(message.timestamp_ms, now_ms), 10)
        + " "@ + cut(on_one_line(message.body@), 50) + "\n"@
}

proof fn short_numbers(number: nat)
    ensures
        number < 10 <==> decimal(number).len() < 2,
{
    reveal_with_fuel(decimal, 2);
    if number >= 10 {
        crate::decimal::decimal_reads_back(number / 10);
    }
}

/// A row holds its number, moved to the right of two places, the dot that tells whether the
/// message was read, the sender cut and filled to 14, the age filled to 10, and the body on one
/// line cut to 50.
pub proof fn a_row_is_that_of_its_message<
    T: Fn(&str, usize) -> String,
    P: Fn(&str, usize) -> String,
    R: Fn(u64, u64) -> String,
>(
    line: Seq<char>,
    number: nat,
    message: InboxMessage,
    now_ms: u64,
    truncate: T,
    pad: P,
    relative_time: R,
    cut: spec_fn(Seq<char>, usize) -> Seq<char>,
    fill: spec_fn(Seq<char>, usize) -> Seq<char>,
    age: spec_fn(u64, u64) -> Seq<char>,
)
    requires
        shapes_by(truncate, cut),
        shapes_by(pad, fill),
        words_by(relative_time, age),
        is_row(line, (number, message), now_ms, truncate, pad, relative_time),
    ensures
        line == row_of(number, message, now_ms, cut, fill, age),
{
    let (sender, from, worded, when, subject) = choose|
        sender: Seq<char>,
        from: Seq<char>,
        worded: Seq<char>,
        when: Seq<char>,
        subject: Seq<char>,
    |
        {
            &&& #[trigger] shapes(truncate, message.from@, 14, sender)
            &&& #[trigger] shapes(pad, sender, 14, from)
            &&& #[trigger] words_time(relative_time, message.timestamp_ms, now_ms, worded)
            &&& #[trigger] shapes(pad, worded, 10, when)
            &&& #[trigger] shapes(truncate, on_one_line(message.body@), 50, subject)
            &&& line == crate::table::row_text(number, message.read, from, when, subject)
        };
    short_numbers(number);
    reveal_strlit("   ");
    reveal_strlit("  ");
    reveal_strlit(" ");
    reveal_strlit(" \u{001b}[90m○\u{001b}[0m ");
    reveal_strlit("\u{001b}[90m○\u{001b}[0m");
    reveal_strlit(" \u{001b}[32m●\u{001b}[0m ");
    reveal_strlit("\u{001b}[32m●\u{001b}[0m");
    assert("  "@ + " "@ =~= "   "@);
    assert(" "@ + "\u{001b}[90m○\u{001b}[0m"@ + " "@ =~= " \u{001b}[90m○\u{001b}[0m "@);
    assert(" "@ + "\u{001b}[32m●\u{001b}[0m"@ + " "@ =~= " \u{001b}[32m●\u{001b}[0m "@);
    assert(line =~= row_of(number, message, now_ms, cut, fill, age));
}

/// A table counts every message that it shows in its head, and has one row for each of them, in
/// their order, up to the limit, and no more; where there is none it says so.
pub proof fn a_table_has_its_rows<
    T: Fn(&str, usize) -> String,
    P: Fn(&str, usize) -> String,
    R: Fn(u64, u64) -> String,
>(
    table: Seq<char>,
    shown: Seq<(nat, InboxMessage)>,
    limit: nat,
    now_ms: u64,
    truncate: T,
    pad: P,
    relative_time: R,
    cut: spec_fn(Seq<char>, usize) -> Seq<char>,
    fill: spec_fn(Seq<char>, usize) -> Seq<char>,
    age: spec_fn(u64, u64) -> Seq<char>,
)
    requires
        shapes_by(truncate, cut),
        shapes_by(pad, fill),
        words_by(relative_time, age),
        is_table(table, shown, limit, now_ms, truncate, pad, relative_time),
    ensures
        shown.len() == 0 ==> table == "\u{001b}[90mno inbox messages\u{001b}[0m\n"@,
        shown.len() > 0 ==> table == "\n\u{001b}[36mINBOX\u{001b}[0m ("@ + decimal(shown.len())
            + " total)\n\n"@ + "  ID R FROM           WHEN       SUBJECT\n"@
            + "  -- - -------------- ---------- --------------------------------------------\n"@
            + in_a_row(
            Seq::new(
                if limit < shown.len() {
                    limit
                } else {
                    shown.len()
                },
                |k: int| row_of(shown[k].0, shown[k].1, now_ms, cut, fill, age),
            ),
        ) + "\n"@,
{
    if shown.len() > 0 {
        let lines = choose|lines: Seq<Seq<char>>|
            {
                &&& #[trigger] are_rows(lines, shown, limit, now_ms, truncate, pad, relative_time)
                &&& table == crate::table::table_head(shown.len()) + in_a_row(lines) + "\n"@
            };
        let rows = Seq::new(
            if limit < shown.len() {
                limit
            } else {
                shown.len()
            },
            |k: int| row_of(shown[k].0, shown[k].1, now_ms, cut, fill, age),
        );
        assert forall|k: int| 0 <= k < lines.len() implies lines[k] == rows[k] by {
            a_row_is_that_of_its_message(
                lines[k],
                shown[k].0,
                shown[k].1,
                now_ms,
                truncate,
                pad,
                relative_time,
                cut,
                fill,
                age,
            );
        }
        assert(lines =~= rows);
    }
}

/// A listing is refused for what is wrong with its arguments, else fails as the loading did, and
/// else prints the table of the messages asked for, with as many rows as were asked for, or
/// twenty where no number was.
pub proof fn a_listing_prints_its_table<
    T: Fn(&str, usize) -> String,
    P: Fn(&str, usize) -> String,
    R: Fn(u64, u64) -> String,
>(
    came: Result<Seq<char>, Seq<char>>,
    argv: Seq<Seq<char>>,
    loaded: Result<Vec<InboxMessage>, String>,
    now_ms: u64,
    truncate: T,
    pad: P,
    relative_time: R,
)
    requires
        is_listing(came, argv, loaded, now_ms, truncate, pad, relative_time),
    ensures
        list_filter(argv, 0, no_filter()) matches Err(error) ==> came == Err::<Seq<char>, Seq<char>>(
            error,
        ),
        list_filter(argv, 0, no_filter()) matches Ok(filter) ==> {
            &&& loaded matches Err(error) ==> came == Err::<Seq<char>, Seq<char>>(error@)
            &&& loaded matches Ok(messages) ==> {
                &&& came matches Ok(table)
                &&& filter.last matches Some(last) ==> is_table(
                    table,
                    listed(messages@, filter),
                    last,
                    now_ms,
                    truncate,
                    pad,
                    relative_time,
                )
                &&& filter.last is None ==> is_table(
                    table,
                    listed(messages@, filter),
                    20,
                    now_ms,
                    truncate,
                    pad,
                    relative_time,
                )
            }
        },
{
}

} // verus!
