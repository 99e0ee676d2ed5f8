//! The table that a listing prints.
//!
//! How a text is cut to a width, padded to one, and how an age is worded is the caller's:
//! the functions here take these three as arguments, and say what is handed to each and
//! where its answer goes.
use vstd::prelude::*;

use crate::decimal::{decimal, decimal_text};
use crate::list::{
    entries, inbox_list_rows, inbox_parse_list_args, list_filter, listed, no_filter, InboxListRow,
};
use crate::model::InboxMessage;
use crate::text::{in_a_row, on_one_line, one_line, outcome, words};

verus! {

/// How many rows a listing prints where its caller gives no limit.
pub const INBOX_LIST_DEFAULT_ROWS: usize = 20;

/// Whether `shaped` is an answer of `shape` to a text and a width.
pub open spec fn shapes<T: Fn(&str, usize) -> String>(
    shape: T,
    text: Seq<char>,
    width: usize,
    shaped: Seq<char>,
) -> bool {
    exists|input: &str, output: String|
        input@ == text && output@ == shaped && call_ensures(shape, (input, width), output)
}

/// Whether `label` is an answer of `wording` to a moment and the present.
pub open spec fn words_time<R: Fn(u64, u64) -> String>(
    wording: R,
    timestamp_ms: u64,
    now_ms: u64,
    label: Seq<char>,
) -> bool {
    exists|output: String|
        output@ == label && call_ensures(wording, (timestamp_ms, now_ms), output)
}

/// Whether `shape` takes every text and width.
pub open spec fn takes_texts<T: Fn(&str, usize) -> String>(shape: T) -> bool {
    forall|text: &str, width: usize| call_requires(shape, (text, width))
}

/// Whether `wording` takes every two moments.
pub open spec fn takes_times<R: Fn(u64, u64) -> String>(wording: R) -> bool {
    forall|timestamp_ms: u64, now_ms: u64| call_requires(wording, (timestamp_ms, now_ms))
}

/// The number of a row, moved to the right of a column two wide.
pub open spec fn row_number(id: nat) -> Seq<char> {
    if decimal(id).len() < 2 {
        " "@ + decimal(id)
    } else {
        decimal(id)
    }
}

/// The dot that tells a message that was read from one that was not.
pub open spec fn read_dot(read: bool) -> Seq<char> {
    if read {
        "\u{001b}[90m○\u{001b}[0m"@
    } else {
        "\u{001b}[32m●\u{001b}[0m"@
    }
}

/// One row, given what stands in its last three columns.
pub open spec fn row_text(
    id: nat,
    read: bool,
    from: Seq<char>,
    when: Seq<char>,
    subject: Seq<char>,
) -> Seq<char> {
    "  "@ + row_number(id) + " "@ + read_dot(read) + " "@ + from + " "@ + when + " "@ + subject
        + "\n"@
}

/// Whether `line` is the row of a message: the sender cut and padded to 14, the age padded
/// to 10, and the body on one line cut to 50.
pub open spec fn is_row<
    T: Fn(&str, usize) -> String,
    P: Fn(&str, usize) -> String,
    R: Fn(u64, u64) -> String,
>(
    line: Seq<char>,
    entry: (nat, InboxMessage),
    now_ms: u64,
    truncate: T,
    pad: P,
    relative_time: R,
) -> bool {
    let message = entry.1;
    exists|
        sender: Seq<char>,
        from: Seq<char>,
        age: Seq<char>,
        when: Seq<char>,
        subject: Seq<char>,
    |
        {
            &&& #[trigger] shapes(truncate, message.from@, 14, sender)
            &&& #[trigger] shapes(pad, sender, 14, from)
            &&& #[trigger] words_time(relative_time, message.timestamp_ms, now_ms, age)
            &&& #[trigger] shapes(pad, age, 10, when)
            &&& #[trigger] shapes(truncate, on_one_line(message.body@), 50, subject)
            &&& line == row_text(entry.0, message.read, from, when, subject)
        }
}

/// Whether the lines are the rows of the first of these messages, up to the limit.
pub open spec fn are_rows<
    T: Fn(&str, usize) -> String,
    P: Fn(&str, usize) -> String,
    R: Fn(u64, u64) -> String,
>(
    lines: Seq<Seq<char>>,
    shown: Seq<(nat, InboxMessage)>,
    limit: nat,
    now_ms: u64,
    truncate: T,
    pad: P,
    relative_time: R,
) -> bool {
    &&& lines.len() == if limit < shown.len() {
        limit
    } else {
        shown.len()
    }
    &&& forall|k: int|
        0 <= k < lines.len() ==> is_row(
            #[trigger] lines[k],
            shown[k],
            now_ms,
            truncate,
            pad,
            relative_time,
        )
}

/// What stands above the rows.
pub open spec fn table_head(total: nat) -> Seq<char> {
    "\n\u{001b}[36mINBOX\u{001b}[0m ("@ + decimal(total) + " total)\n\n"@
        + "  ID R FROM           WHEN       SUBJECT\n"@
        + "  -- - -------------- ---------- --------------------------------------------\n"@
}

/// What is printed in place of a table where there is nothing to show.
pub open spec fn nothing_shown() -> Seq<char> {
    "\u{001b}[90mno inbox messages\u{001b}[0m\n"@
}

/// Whether `table` is the listing of these messages: every message counts in the head, and
/// as many as the limit allows have a row.
pub open spec fn is_table<
    T: Fn(&str, usize) -> String,
    P: Fn(&str, usize) -> String,
    R: Fn(u64, u64) -> String,
>(
    table: Seq<char>,
    shown: Seq<(nat, InboxMessage)>,
    limit: nat,
    now_ms: u64,
    truncate: T,
    pad: P,
    relative_time: R,
) -> bool {
    if shown.len() == 0 {
        table == nothing_shown()
    } else {
        exists|lines: Seq<Seq<char>>|
            {
                &&& #[trigger] are_rows(lines, shown, limit, now_ms, truncate, pad, relative_time)
                &&& table == table_head(shown.len()) + in_a_row(lines) + "\n"@
            }
    }
}

/// Writes the row of one message behind what `out` holds.
pub fn inbox_render_list_row<
    T: Fn(&str, usize) -> String,
    P: Fn(&str, usize) -> String,
    R: Fn(u64, u64) -> String,
>(
    out: &mut String,
    row: &InboxListRow<'_>,
    now_ms: u64,
    truncate: &T,
    pad: &P,
    relative_time: &R,
)
    requires
        takes_texts(*truncate),
        takes_texts(*pad),
        takes_times(*relative_time),
    ensures
        exists|line: Seq<char>|
            {
                &&& #[trigger] is_row(
                    line,
                    (row.id as nat, *row.message),
                    now_ms,
                    *truncate,
                    *pad,
                    *relative_time,
                )
                &&& final(out)@ == old(out)@ + line
            },
{
    let message = row.message;
    let number = decimal_text(row.id as u64);
    let sender = truncate(message.from.as_str(), 14);
    let from = pad(sender.as_str(), 14);
    let age = relative_time(message.timestamp_ms, now_ms);
    let when = pad(age.as_str(), 10);
    let body = one_line(message.body.as_str());
    let subject = truncate(body.as_str(), 50);
    let mut line = "  ".to_owned();
    if number.as_str().unicode_len() < 2 {
        line.append(" ");
    }
    line.append(number.as_str());
    line.append(" ");
    line.append(
        if message.read {
            "\u{001b}[90m○\u{001b}[0m"
        } else {
            "\u{001b}[32m●\u{001b}[0m"
        },
    );
    line.append(" ");
    line.append(from.as_str());
    line.append(" ");
    line.append(when.as_str());
    line.append(" ");
    line.append(subject.as_str());
    line.append("\n");
    proof {
        let entry = (row.id as nat, *row.message);
        assert(shapes(*truncate, entry.1.from@, 14, sender@));
        assert(shapes(*pad, sender@, 14, from@));
        assert(words_time(*relative_time, entry.1.timestamp_ms, now_ms, age@));
        assert(shapes(*pad, age@, 10, when@));
        assert(shapes(*truncate, on_one_line(entry.1.body@), 50, subject@));
        assert(line@ =~= row_text(entry.0, entry.1.read, from@, when@, subject@));
        assert(is_row(line@, entry, now_ms, *truncate, *pad, *relative_time));
    }
    out.append(line.as_str());
}

/// The table of the rows, or a word that there are none.
pub fn inbox_render_list<
    T: Fn(&str, usize) -> String,
    P: Fn(&str, usize) -> String,
    R: Fn(u64, u64) -> String,
>(
    rows: &[InboxListRow<'_>],
    limit: usize,
    now_ms: u64,
    truncate: &T,
    pad: &P,
    relative_time: &R,
) -> (table: String)
    requires
        takes_texts(*truncate),
        takes_texts(*pad),
        takes_times(*relative_time),
    ensures
        is_table(
            table@,
            entries(rows@),
            limit as nat,
            now_ms,
            *truncate,
            *pad,
            *relative_time,
        ),
{
    if rows.is_empty() {
        return "\u{001b}[90mno inbox messages\u{001b}[0m\n".to_owned();
    }
    let mut out = "\n\u{001b}[36mINBOX\u{001b}[0m (".to_owned();
    out.append(decimal_text(rows.len() as u64).as_str());
    out.append(" total)\n\n");
    out.append("  ID R FROM           WHEN       SUBJECT\n");
    out.append("  -- - -------------- ---------- --------------------------------------------\n");
    assert(out@ =~= table_head(rows@.len()));
    let ghost mut lines: Seq<Seq<char>> = Seq::empty();
    let mut index: usize = 0;
    while index < rows.len() && index < limit
        invariant
            takes_texts(*truncate),
            takes_texts(*pad),
            takes_times(*relative_time),
            index <= rows.len(),
            index <= limit,
            lines.len() == index,
            out@ =~= table_head(rows@.len()) + in_a_row(lines),
            forall|k: int|
                0 <= k < lines.len() ==> is_row(
                    #[trigger] lines[k],
                    entries(rows@)[k],
                    now_ms,
                    *truncate,
                    *pad,
                    *relative_time,
                ),
        decreases rows.len() - index,
    {
        let ghost before = out@;
        inbox_render_list_row(&mut out, &rows[index], now_ms, truncate, pad, relative_time);
        proof {
            let line = choose|line: Seq<char>|
                {
                    &&& #[trigger] is_row(
                        line,
                        (rows@[index as int].id as nat, *rows@[index as int].message),
                        now_ms,
                        *truncate,
                        *pad,
                        *relative_time,
                    )
                    &&& out@ == before + line
                };
            assert(lines.push(line).drop_last() =~= lines);
            lines = lines.push(line);
        }
        index += 1;
    }
    out.append("\n");
    assert(are_rows(
        lines,
        entries(rows@),
        limit as nat,
        now_ms,
        *truncate,
        *pad,
        *relative_time,
    ));
    out
}

/// Whether a listing of what was loaded came to this: the arguments decide first, then whether
/// the messages could be loaded.
pub open spec fn is_listing<
    T: Fn(&str, usize) -> String,
    P: Fn(&str, usize) -> String,
    R: Fn(u64, u64) -> String,
>(
    came: Result<Seq<char>, Seq<char>>,
    argv: Seq<Seq<char>>,
    loaded: Result<Vec<InboxMessage>, String>,
    now_ms: u64,
    truncate: T,
    pad: P,
    relative_time: R,
) -> bool {
    match list_filter(argv, 0, no_filter()) {
        Err(error) => came == Err::<Seq<char>, Seq<char>>(error),
        Ok(filter) => match loaded {
            Err(error) => came == Err::<Seq<char>, Seq<char>>(error@),
            Ok(messages) => came matches Ok(table) && is_table(
                table,
                listed(messages@, filter),
                match filter.last {
                    Some(last) => last,
                    None => INBOX_LIST_DEFAULT_ROWS as nat,
                },
                now_ms,
                truncate,
                pad,
                relative_time,
            ),
        },
    }
}

/// Lists the inbox: the arguments decide first, then whether the messages could be loaded.
pub fn inbox_run_list<
    T: Fn(&str, usize) -> String,
    P: Fn(&str, usize) -> String,
    R: Fn(u64, u64) -> String,
>(
    argv: &[String],
    loaded: Result<Vec<InboxMessage>, String>,
    now_ms: u64,
    truncate: &T,
    pad: &P,
    relative_time: &R,
) -> (result: Result<String, String>)
    requires
        takes_texts(*truncate),
        takes_texts(*pad),
        takes_times(*relative_time),
    ensures
        is_listing(
            outcome(result),
            words(argv@),
            loaded,
            now_ms,
            *truncate,
            *pad,
            *relative_time,
        ),
{
    let options = inbox_parse_list_args(argv)?;
    let messages = loaded?;
    let rows = inbox_list_rows(messages.as_slice(), &options);
    let limit: usize = match options.last {
        Some(last) => last,
        None => INBOX_LIST_DEFAULT_ROWS,
    };
    Ok(inbox_render_list(rows.as_slice(), limit, now_ms, truncate, pad, relative_time))
}

} // verus!
