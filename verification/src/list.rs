//! Listing the inbox: the flags and the rows.
use vstd::prelude::*;

use crate::args::{
    count_value, flag_value, guarded, inbox_parse_usize, inbox_required_value,
    inbox_validate_target_arg, target_ok,
};
use crate::model::InboxMessage;
use crate::text::{
    begins, begins_with, outcome, same_text, starts_with_text, strip_heads, without_heads, words,
};

verus! {

/// Which messages a listing shows, and how many rows of them.
#[derive(Debug, Clone, PartialEq, Eq)]
pub struct InboxListOptions {
    pub unread: bool,
    pub from: Option<String>,
    pub last: Option<usize>,
}

/// The same, with texts as sequences of characters.
#[verifier::ext_equal]
pub struct ListFilter {
    pub unread: bool,
    pub from: Option<Seq<char>>,
    pub last: Option<nat>,
}

impl View for InboxListOptions {
    type V = ListFilter;

    open spec fn view(&self) -> ListFilter {
        ListFilter {
            unread: self.unread,
            from: match self.from {
                Some(from) => Some(from@),
                None => None,
            },
            last: match self.last {
                Some(last) => Some(last as nat),
                None => None,
            },
        }
    }
}

impl Default for InboxListOptions {
    /// All messages, and no limit of the caller's own.
    fn default() -> (options: Self)
        ensures
            options@ == no_filter(),
    {
        InboxListOptions { unread: false, from: None, last: None }
    }
}

/// The filter that every message passes.
pub open spec fn no_filter() -> ListFilter {
    ListFilter { unread: false, from: None, last: None }
}

/// The filter with a sender set, if the text may name one; and the next argument's place.
pub open spec fn with_from(filter: ListFilter, value: Seq<char>, next: int) -> Result<
    (ListFilter, int),
    Seq<char>,
> {
    match guarded(target_ok(value), "from"@) {
        Ok(_) => Ok((ListFilter { from: Some(value), ..filter }, next)),
        Err(error) => Err(error),
    }
}

/// The filter with a row limit set, if the text gives a count; and the next argument's place.
pub open spec fn with_last(filter: ListFilter, value: Seq<char>, next: int) -> Result<
    (ListFilter, int),
    Seq<char>,
> {
    match count_value(value, "--last"@) {
        Ok(count) => Ok((ListFilter { last: Some(count), ..filter }, next)),
        Err(error) => Err(error),
    }
}

/// What the argument at `index` makes of a filter, and where the next argument stands.
pub open spec fn list_step(argv: Seq<Seq<char>>, index: int, filter: ListFilter) -> Result<
    (ListFilter, int),
    Seq<char>,
> {
    let arg = argv[index];
    if arg == "--unread"@ {
        Ok((ListFilter { unread: true, ..filter }, index + 1))
    } else if arg == "--from"@ {
        match flag_value(argv, index, "--from"@) {
            Ok(value) => with_from(filter, value, index + 2),
            Err(error) => Err(error),
        }
    } else if arg == "--last"@ {
        match flag_value(argv, index, "--last"@) {
            Ok(value) => with_last(filter, value, index + 2),
            Err(error) => Err(error),
        }
    } else if "--from="@.is_prefix_of(arg) {
        with_from(filter, without_heads(arg, "--from="@), index + 1)
    } else if "--last="@.is_prefix_of(arg) {
        with_last(filter, without_heads(arg, "--last="@), index + 1)
    } else if begins(arg, '-') {
        Err("inbox: unknown argument "@ + arg)
    } else {
        Err("inbox: unexpected argument "@ + arg)
    }
}

/// What the arguments from `index` on make of a filter. The first that fails decides.
pub open spec fn list_filter(argv: Seq<Seq<char>>, index: int, filter: ListFilter) -> Result<
    ListFilter,
    Seq<char>,
>
    decreases argv.len() - index,
{
    if index < 0 || index >= argv.len() {
        Ok(filter)
    } else {
        match list_step(argv, index, filter) {
            Ok((changed, next)) => list_filter(argv, next, changed),
            Err(error) => Err(error),
        }
    }
}

/// What stands before the arguments that are left does not matter to them.
pub(crate) proof fn list_filter_looks_ahead(
    front: Seq<Seq<char>>,
    rest: Seq<Seq<char>>,
    index: int,
    filter: ListFilter,
)
    requires
        0 <= index,
    ensures
        list_filter(front + rest, front.len() + index, filter) == list_filter(rest, index, filter),
    decreases rest.len() - index,
{
    if index < rest.len() {
        let all = front + rest;
        assert(all[front.len() + index] == rest[index]);
        if index + 1 < rest.len() {
            assert(all[front.len() + index + 1] == rest[index + 1]);
        }
        if let Ok((changed, next)) = list_step(rest, index, filter) {
            list_filter_looks_ahead(front, rest, next, changed);
        }
    }
}

/// A sender given behind its flag and one written into the flag are the same, whatever
/// arguments follow, as long as the sender does not begin with `-`.
pub proof fn from_spellings_agree(value: Seq<char>, rest: Seq<Seq<char>>, filter: ListFilter)
    requires
        !begins(value, '-'),
    ensures
        list_filter(seq!["--from"@, value] + rest, 0, filter) == list_filter(
            seq!["--from="@ + value] + rest,
            0,
            filter,
        ),
{
    let apart = seq!["--from"@, value];
    let whole = seq!["--from="@ + value];
    flag_heads(value);
    assert((apart + rest)[0] == "--from"@ && (apart + rest)[1] == value);
    assert((whole + rest)[0] == "--from="@ + value);
    assert(list_step(apart + rest, 0, filter) == with_from(filter, value, 2));
    assert(list_step(whole + rest, 0, filter) == with_from(filter, value, 1));
    if let Ok((changed, _)) = with_from(filter, value, 2) {
        list_filter_looks_ahead(apart, rest, 0, changed);
        list_filter_looks_ahead(whole, rest, 0, changed);
    }
}

/// A row limit given behind its flag and one written into the flag are the same, whatever
/// arguments follow, as long as the limit does not begin with `-`.
pub proof fn last_spellings_agree(value: Seq<char>, rest: Seq<Seq<char>>, filter: ListFilter)
    requires
        !begins(value, '-'),
    ensures
        list_filter(seq!["--last"@, value] + rest, 0, filter) == list_filter(
            seq!["--last="@ + value] + rest,
            0,
            filter,
        ),
{
    let apart = seq!["--last"@, value];
    let whole = seq!["--last="@ + value];
    flag_heads(value);
    assert((apart + rest)[0] == "--last"@ && (apart + rest)[1] == value);
    assert((whole + rest)[0] == "--last="@ + value);
    assert(list_step(apart + rest, 0, filter) == with_last(filter, value, 2));
    assert(list_step(whole + rest, 0, filter) == with_last(filter, value, 1));
    if let Ok((changed, _)) = with_last(filter, value, 2) {
        list_filter_looks_ahead(apart, rest, 0, changed);
        list_filter_looks_ahead(whole, rest, 0, changed);
    }
}

pub(crate) proof fn flag_heads(value: Seq<char>)
    requires
        !begins(value, '-'),
    ensures
        without_heads("--from="@ + value, "--from="@) == value,
        without_heads("--last="@ + value, "--last="@) == value,
        "--from="@.is_prefix_of("--from="@ + value),
        "--last="@.is_prefix_of("--last="@ + value),
        !"--from="@.is_prefix_of("--last="@ + value),
        "--from="@ + value != "--unread"@,
        "--from="@ + value != "--from"@,
        "--from="@ + value != "--last"@,
        "--last="@ + value != "--unread"@,
        "--last="@ + value != "--from"@,
        "--last="@ + value != "--last"@,
        "--from"@ != "--unread"@,
        "--last"@ != "--unread"@,
        "--last"@ != "--from"@,
{
    reveal_strlit("--from=");
    reveal_strlit("--last=");
    reveal_strlit("--from");
    reveal_strlit("--last");
    reveal_strlit("--unread");
    reveal_with_fuel(without_heads, 2);
    let from = "--from="@ + value;
    let last = "--last="@ + value;
    assert(from.subrange(0, 7) =~= "--from="@);
    assert(last.subrange(0, 7) =~= "--last="@);
    assert(from.skip(7) =~= value);
    assert(last.skip(7) =~= value);
    assert(from[2] == 'f' && last[2] == 'l' && "--unread"@[2] == 'u');
    assert(last.subrange(0, 7)[2] == 'l');
    assert("--from"@[2] == 'f' && "--last"@[2] == 'l');
    if "--from="@.is_prefix_of(value) {
        assert(value.subrange(0, 7)[0] == '-');
    }
    if "--last="@.is_prefix_of(value) {
        assert(value.subrange(0, 7)[0] == '-');
    }
}

/// The options that a listing's arguments give.
pub fn inbox_parse_list_args(argv: &[String]) -> (result: Result<InboxListOptions, String>)
    ensures
        outcome(result) == list_filter(words(argv@), 0, no_filter()),
{
    proof {
        reveal_strlit("--from=");
        reveal_strlit("--last=");
    }
    let mut options = InboxListOptions::default();
    let mut index: usize = 0;
    while index < argv.len()
        invariant
            index <= argv.len(),
            "--from="@.len() > 0,
            "--last="@.len() > 0,
            list_filter(words(argv@), 0, no_filter()) == list_filter(
                words(argv@),
                index as int,
                options@,
            ),
        decreases argv.len() - index,
    {
        let arg = argv[index].as_str();
        assert(arg@ == words(argv@)[index as int]);
        if same_text(arg, "--unread") {
            options.unread = true;
        } else if same_text(arg, "--from") {
            let value = inbox_required_value(argv, index, "--from")?;
            inbox_validate_target_arg(value, "from")?;
            options.from = Some(value.to_owned());
            index += 1;
        } else if same_text(arg, "--last") {
            let value = inbox_required_value(argv, index, "--last")?;
            options.last = Some(inbox_parse_usize(value, "--last")?);
            index += 1;
        } else if starts_with_text(arg, "--from=") {
            let value = strip_heads(arg, "--from=");
            inbox_validate_target_arg(value, "from")?;
            options.from = Some(value.to_owned());
        } else if starts_with_text(arg, "--last=") {
            options.last = Some(inbox_parse_usize(strip_heads(arg, "--last="), "--last")?);
        } else if begins_with(arg, '-') {
            return Err("inbox: unknown argument ".to_owned().concat(arg));
        } else {
            return Err("inbox: unexpected argument ".to_owned().concat(arg));
        }
        index += 1;
    }
    Ok(options)
}

/// One row of a listing: a message with its number.
#[derive(Debug, Clone, Copy)]
pub struct InboxListRow<'a> {
    pub id: usize,
    pub message: &'a InboxMessage,
}

/// Whether a listing shows the message.
pub open spec fn passes(message: InboxMessage, filter: ListFilter) -> bool {
    &&& filter.unread ==> !message.read
    &&& filter.from matches Some(from) ==> message.from@ == from
}

/// The messages, each with its number: its place in the inbox, from one.
pub open spec fn numbered(messages: Seq<InboxMessage>) -> Seq<(nat, InboxMessage)> {
    Seq::new(messages.len(), |i: int| ((i + 1) as nat, messages[i]))
}

/// The numbered messages that a listing shows, in the inbox's order.
pub open spec fn listed(messages: Seq<InboxMessage>, filter: ListFilter) -> Seq<
    (nat, InboxMessage),
> {
    numbered(messages).filter(|entry: (nat, InboxMessage)| passes(entry.1, filter))
}

/// The rows as numbered messages.
pub open spec fn entries(rows: Seq<InboxListRow>) -> Seq<(nat, InboxMessage)> {
    rows.map_values(|row: InboxListRow| (row.id as nat, *row.message))
}

/// A number in a listing is the message's place in the whole inbox, whatever the filter
/// hides; the numbers grow from row to row; and every message that passes the filter has
/// its row.
pub proof fn row_numbers_are_stable(messages: Seq<InboxMessage>, filter: ListFilter)
    ensures
        forall|k: int|
            0 <= k < listed(messages, filter).len() ==> {
                let entry = #[trigger] listed(messages, filter)[k];
                &&& 1 <= entry.0 <= messages.len()
                &&& entry.1 == messages[entry.0 - 1]
                &&& passes(entry.1, filter)
            },
        forall|j: int, k: int|
            0 <= j < k < listed(messages, filter).len() ==> (#[trigger] listed(
                messages,
                filter,
            )[j]).0 < (#[trigger] listed(messages, filter)[k]).0,
        forall|i: int|
            0 <= i < messages.len() && passes(#[trigger] messages[i], filter) ==> listed(
                messages,
                filter,
            ).contains(((i + 1) as nat, messages[i])),
    decreases messages.len(),
{
    reveal_with_fuel(Seq::<_>::filter, 2);
    if messages.len() > 0 {
        let front = messages.drop_last();
        row_numbers_are_stable(front, filter);
        assert(numbered(messages).drop_last() =~= numbered(front));
        let before = listed(front, filter);
        let after = listed(messages, filter);
        let entry = (messages.len(), messages.last());
        assert(numbered(messages).last() == entry);
        assert forall|i: int|
            0 <= i < messages.len() && passes(#[trigger] messages[i], filter) implies after.contains(
            ((i + 1) as nat, messages[i]),
        ) by {
            if i < front.len() {
                assert(front[i] == messages[i]);
                let at = before.index_of(((i + 1) as nat, messages[i]));
                assert(after[at] == before[at]);
            } else {
                assert(after[after.len() - 1] == entry);
            }
        }
    }
}

/// Narrowing a listing only leaves rows out.
pub proof fn narrower_lists_less(messages: Seq<InboxMessage>, wide: ListFilter, narrow: ListFilter)
    requires
        wide.unread ==> narrow.unread,
        wide.from is Some ==> narrow.from == wide.from,
    ensures
        forall|entry: (nat, InboxMessage)|
            listed(messages, narrow).contains(entry) ==> #[trigger] listed(
                messages,
                wide,
            ).contains(entry),
{
    row_numbers_are_stable(messages, wide);
    row_numbers_are_stable(messages, narrow);
    assert forall|entry: (nat, InboxMessage)|
        listed(messages, narrow).contains(entry) implies #[trigger] listed(
        messages,
        wide,
    ).contains(entry) by {
        let at = listed(messages, narrow).index_of(entry);
        assert(listed(messages, narrow)[at] == entry);
        assert(passes(messages[entry.0 - 1], wide));
    }
}

/// The rows of a listing.
pub fn inbox_list_rows<'a>(messages: &'a [InboxMessage], options: &InboxListOptions) -> (rows: Vec<
    InboxListRow<'a>,
>)
    ensures
        entries(rows@) == listed(messages@, options@),
{
    let mut rows: Vec<InboxListRow<'a>> = Vec::new();
    let mut index: usize = 0;
    let ghost shown = |entry: (nat, InboxMessage)| passes(entry.1, options@);
    while index < messages.len()
        invariant
            index <= messages.len(),
            shown == (|entry: (nat, InboxMessage)| passes(entry.1, options@)),
            entries(rows@) =~= numbered(messages@).take(index as int).filter(shown),
        decreases messages.len() - index,
    {
        let message = &messages[index];
        let hidden = (options.unread && message.read) || match &options.from {
            Some(from) => message.from != *from,
            None => false,
        };
        proof {
            let upto = numbered(messages@).take(index + 1);
            assert(upto.drop_last() =~= numbered(messages@).take(index as int));
            assert(upto.last() == ((index + 1) as nat, messages@[index as int]));
            reveal_with_fuel(Seq::<_>::filter, 2);
        }
        if !hidden {
            rows.push(InboxListRow { id: index + 1, message });
        }
        index += 1;
    }
    assert(numbered(messages@).take(index as int) =~= numbered(messages@));
    rows
}

} // verus!
