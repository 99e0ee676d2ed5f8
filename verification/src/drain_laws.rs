//! What a drain takes and where that goes, told by the words of a message, its age and its name.
use vstd::prelude::*;
use vstd::utf8::encode_utf8;

use crate::archive::{
    archive_name, day_of, has_sure_extension, is_md, last_dot, later, latest_from, latest_of_days,
    move_answer, name_extension, starts_search, InboxArchiveName, InboxMove,
};
use crate::decimal::decimal;
use crate::drain::{
    are_ages, by_age, by_age_sorts, capped, cases, first_reason, reason_patterns, reports,
    safe_reason, stale, DrainCase, InboxDrainCandidate,
};
use crate::model::InboxMessage;
use crate::text::{first_filled_line, has_part, lowercase};
use crate::text_laws::{has_part_is_between, tail_comes_off};

verus! {

/// A text in lower case has a reason exactly where it holds one of nine phrases, and then that
/// of the first of them that it holds.
pub proof fn reasons_by_phrase(text: Seq<char>)
    ensures
        first_reason(text, 0) == (if has_part(text, "ci green confirmed"@) {
            Some("ci-green"@)
        } else if has_part(text, "local ship commit"@) {
            Some("local-ship"@)
        } else if has_part(text, "alpha pushed"@) {
            Some("alpha-pushed"@)
        } else if has_part(text, "coverage batch pushed"@) {
            Some("coverage-pushed"@)
        } else if has_part(text, "green batch"@) {
            Some("green-batch"@)
        } else if has_part(text, "verified"@) {
            Some("verified"@)
        } else if has_part(text, "shipped next slice"@) {
            Some("next-slice-shipped"@)
        } else if has_part(text, "delivery confirm"@) {
            Some("delivery-confirm"@)
        } else if has_part(text, "no response needed"@) {
            Some("council"@)
        } else {
            None
        }),
{
    reveal_with_fuel(first_reason, 10);
    assert(reason_patterns().len() == 9);
}

/// A first line is a routine report exactly where it begins with `[`, holds a `]` somewhere,
/// and holds no `?` anywhere.
pub proof fn reports_by_character(line: Seq<char>)
    ensures
        reports(line) <==> {
            &&& line.len() > 0
            &&& line[0] == '['
            &&& exists|i: int| 0 <= i < line.len() && #[trigger] line[i] == ']'
            &&& forall|i: int| 0 <= i < line.len() ==> #[trigger] line[i] != '?'
        },
{
}

/// A message is drained unseen only for what the first filled line of its body says: that line
/// begins with `[`, asks nothing, and in lower case holds one of the nine phrases, written out
/// whole. A message without such a line is left where it is.
pub proof fn only_the_nine_phrases_are_routine(message: InboxMessage)
    ensures
        safe_reason(message) is Some ==> {
            &&& first_filled_line(message.body@) matches Some(line)
            &&& line.len() > 0 && line[0] == '['
            &&& forall|i: int| 0 <= i < line.len() ==> #[trigger] line[i] != '?'
            &&& exists|front: Seq<char>, phrase: Seq<char>, back: Seq<char>|
                {
                    &&& lowercase(line) == #[trigger] (front + phrase + back)
                    &&& phrase == "ci green confirmed"@ || phrase == "local ship commit"@ || phrase
                        == "alpha pushed"@ || phrase == "coverage batch pushed"@ || phrase
                        == "green batch"@ || phrase == "verified"@ || phrase
                        == "shipped next slice"@ || phrase == "delivery confirm"@ || phrase
                        == "no response needed"@
                }
        },
        first_filled_line(message.body@) is None ==> safe_reason(message) is None,
        first_filled_line(message.body@) matches Some(line) ==> (reports(line) ==> safe_reason(
            message,
        ) == first_reason(lowercase(line), 0)),
{
    if safe_reason(message) is Some {
        let line = first_filled_line(message.body@)->0;
        let text = lowercase(line);
        reasons_by_phrase(text);
        reports_by_character(line);
        let phrase = if has_part(text, "ci green confirmed"@) {
            "ci green confirmed"@
        } else if has_part(text, "local ship commit"@) {
            "local ship commit"@
        } else if has_part(text, "alpha pushed"@) {
            "alpha pushed"@
        } else if has_part(text, "coverage batch pushed"@) {
            "coverage batch pushed"@
        } else if has_part(text, "green batch"@) {
            "green batch"@
        } else if has_part(text, "verified"@) {
            "verified"@
        } else if has_part(text, "shipped next slice"@) {
            "shipped next slice"@
        } else if has_part(text, "delivery confirm"@) {
            "delivery confirm"@
        } else {
            "no response needed"@
        };
        has_part_is_between(text, phrase);
        let (front, back) = choose|front: Seq<char>, back: Seq<char>|
            text == #[trigger] (front + phrase + back);
        assert(lowercase(line) == front + phrase + back);
    }
}

/// What a message is called, who sent it, when, and whether it was read have no part in whether
/// it is routine.
pub proof fn only_the_body_is_searched(a: InboxMessage, b: InboxMessage)
    requires
        a.body@ == b.body@,
    ensures
        safe_reason(a) == safe_reason(b),
{
}

/// The candidates are seen as they are, every one of them.
pub proof fn candidates_are_seen_whole(candidates: Seq<InboxDrainCandidate>)
    ensures
        cases(candidates).len() == candidates.len(),
        forall|i: int|
            0 <= i < candidates.len() ==> {
                let case = #[trigger] cases(candidates)[i];
                &&& case.message == candidates[i].message
                &&& case.reason == candidates[i].reason@
                &&& case.age_seconds == candidates[i].age_seconds
            },
{
}

/// One more message at the end of the inbox leaves what a drain may take before it as it is,
/// and comes behind it exactly where it has a reason and its age reaches the floor.
pub proof fn one_more_message_is_stale_or_not(
    messages: Seq<InboxMessage>,
    ages: Seq<u64>,
    message: InboxMessage,
    age: u64,
    min_age: u64,
)
    requires
        ages.len() == messages.len(),
    ensures
        stale(Seq::empty(), Seq::empty(), min_age).len() == 0,
        age >= min_age ==> (safe_reason(message) matches Some(reason) ==> stale(
            messages.push(message),
            ages.push(age),
            min_age,
        ) == stale(messages, ages, min_age).push(DrainCase { message, reason, age_seconds: age })),
        age < min_age || safe_reason(message) is None ==> stale(
            messages.push(message),
            ages.push(age),
            min_age,
        ) == stale(messages, ages, min_age),
{
    assert(messages.push(message).drop_last() =~= messages);
    assert(ages.push(age).drop_last() =~= ages);
}

/// The ages that a drain goes by are what the caller's function answers to when each message
/// was sent and the present.
pub proof fn ages_are_the_answers<A: Fn(u64, u64) -> u64>(
    ages: Seq<u64>,
    messages: Seq<InboxMessage>,
    now_ms: u64,
    age_seconds: A,
    model: spec_fn(u64, u64) -> u64,
)
    requires
        are_ages(ages, messages, now_ms, age_seconds),
        forall|sent: u64, now: u64, answer: u64| #[trigger]
            call_ensures(age_seconds, (sent, now), answer) ==> answer == model(sent, now),
    ensures
        ages.len() == messages.len(),
        forall|i: int|
            0 <= i < messages.len() && safe_reason(#[trigger] messages[i]) is Some ==> ages[i]
                == model(messages[i].timestamp_ms, now_ms),
{
}

/// What a drain takes is the beginning of what it may take, ordered by age: as many as the cap
/// allows, all of them where it allows all, with no older one before a younger one, and those
/// of one age in the inbox's order.
pub proof fn a_drain_takes_the_first_by_age(row: Seq<DrainCase>, max: nat, age: u64)
    ensures
        capped(by_age(row), max).len() == if max < row.len() {
            max
        } else {
            row.len()
        },
        forall|i: int|
            0 <= i < capped(by_age(row), max).len() ==> #[trigger] capped(by_age(row), max)[i]
                == by_age(row)[i],
        by_age(row).to_multiset() == row.to_multiset(),
        forall|i: int, j: int|
            0 <= i < j < row.len() ==> (#[trigger] by_age(row)[i]).age_seconds <= (
            #[trigger] by_age(row)[j]).age_seconds,
        by_age(row).filter(|case: DrainCase| case.age_seconds == age) == row.filter(
            |case: DrainCase| case.age_seconds == age,
        ),
{
    by_age_sorts(row);
    assert(crate::drain::of_age(by_age(row), age) == crate::drain::of_age(row, age));
}

/// The label of a moment that is shorter than a date gives the first day of 1970.
pub proof fn short_labels_give_the_first_day(label: Seq<char>)
    requires
        encode_utf8(label).len() < 10,
    ensures
        day_of(label) == "1970-01-01"@,
{
    vstd::utf8::encode_utf8_valid_utf8(label);
    short_has_no_boundary(encode_utf8(label));
}

proof fn short_has_no_boundary(bytes: Seq<u8>)
    requires
        bytes.len() < 10,
        vstd::utf8::valid_utf8(bytes),
    ensures
        !vstd::utf8::is_char_boundary(bytes, 10),
{
    vstd::utf8::is_char_boundary_start_end_of_seq(bytes);
}

/// A file keeps its own name in the archive where that is free. Else it is numbered from 2 on,
/// behind the whole of its stem, and ends with `.md` exactly where that is its ending.
pub proof fn archive_names_keep_the_stem(stem: Seq<char>, filename: Seq<char>, md: bool, tries: nat)
    ensures
        archive_name(filename, md, 0) == filename,
        tries > 0 ==> archive_name(stem + ".md"@, true, tries) == stem + "-"@ + decimal(tries + 1)
            + ".md"@,
        tries > 0 ==> archive_name(stem + ".md"@, false, tries) == stem + "-"@ + decimal(
            tries + 1,
        ),
        tries > 0 && (forall|front: Seq<char>| filename != #[trigger] (front + ".md"@))
            ==> archive_name(filename, md, tries) == filename + "-"@ + decimal(tries + 1) + (if md {
            ".md"@
        } else {
            Seq::empty()
        }),
{
    tail_comes_off(stem, ".md"@, filename);
    assert(stem + "-"@ + decimal(tries + 1) + Seq::<char>::empty() =~= stem + "-"@ + decimal(
        tries + 1,
    ));
}

/// An extension counts as `md` in the four ways to write that, and in no other.
pub proof fn md_by_character(extension: Seq<char>)
    ensures
        is_md(extension) <==> extension == seq!['m', 'd'] || extension == seq!['m', 'D']
            || extension == seq!['M', 'd'] || extension == seq!['M', 'D'],
{
    if is_md(extension) {
        assert(extension =~= seq![extension[0], extension[1]]);
        assert(extension[0] == 'm' || extension[0] == 'M');
        assert(extension[1] == 'd' || extension[1] == 'D');
    }
}

/// The last dot is the one behind which no other stands.
pub proof fn the_last_dot_is_last(front: Seq<char>, back: Seq<char>)
    requires
        forall|i: int| 0 <= i < back.len() ==> #[trigger] back[i] != '.',
    ensures
        last_dot(front + seq!['.'] + back) == Some(front.len() as int),
        last_dot(back) is None,
        has_sure_extension(back) && name_extension(back) is None,
    decreases back.len(),
{
    let name = front + seq!['.'] + back;
    if back.len() > 0 {
        let less = back.drop_last();
        assert forall|i: int| 0 <= i < less.len() implies #[trigger] less[i] != '.' by {
            assert(back[i] == less[i]);
        }
        the_last_dot_is_last(front, less);
        assert(name.drop_last() =~= front + seq!['.'] + less);
        assert(name.last() == back.last());
        assert(back[back.len() - 1] != '.');
    } else {
        assert(name.last() == '.');
    }
}

/// The extension of a name that holds no separator and no colon is what stands behind its last
/// dot, if anything stands before that dot.
pub proof fn extensions_stand_behind_the_last_dot(front: Seq<char>, back: Seq<char>)
    requires
        forall|i: int| 0 <= i < back.len() ==> #[trigger] back[i] != '.',
        forall|i: int|
            0 <= i < front.len() ==> (#[trigger] front[i]) != '/' && front[i] != '\\' && front[i]
                != ':',
        forall|i: int|
            0 <= i < back.len() ==> (#[trigger] back[i]) != '/' && back[i] != '\\' && back[i]
                != ':',
        front.len() > 0,
        front + seq!['.'] + back != ".."@,
    ensures
        has_sure_extension(front + seq!['.'] + back),
        name_extension(front + seq!['.'] + back) == Some(back),
{
    let name = front + seq!['.'] + back;
    the_last_dot_is_last(front, back);
    assert(name.skip(front.len() as int + 1) =~= back);
    assert forall|i: int| 0 <= i < name.len() implies (#[trigger] name[i]) != '/' && name[i] != '\\'
        && name[i] != ':' by {
        if i < front.len() {
            assert(name[i] == front[i]);
        } else if i > front.len() {
            assert(name[i] == back[i - front.len() - 1]);
        }
    }
}

/// The search for a free name begins with the file's own, and numbers the names of a file that
/// ends with `.md` before that ending, wherever that is the file's extension on every system.
pub proof fn searches_begin_with_the_own_name(
    search: InboxArchiveName,
    filename: Seq<char>,
    stem: Seq<char>,
)
    requires
        starts_search(search, filename),
    ensures
        search.filename() == filename,
        search.tries() == 0,
        filename == stem + ".md"@ && stem.len() > 0 && !stem.contains('/') && stem.first() != '\\'
            && stem.last() != '\\' && stem.last() != ':' ==> search.md(),
{
    if filename == stem + ".md"@ && stem.len() > 0 && !stem.contains('/') && stem.first() != '\\'
        && stem.last() != '\\' && stem.last() != ':' {
        crate::archive::md_names_are_sure(stem);
    }
}

/// An attempt to archive a file succeeds where the file was moved, and else says which folder
/// or which of the two paths it failed on, and why.
pub proof fn failed_moves_say_why(
    source: Seq<char>,
    destination: Seq<char>,
    folder: String,
    error: String,
)
    ensures
        move_answer(source, destination, InboxMove::Moved) is Ok,
        move_answer(source, destination, InboxMove::NoFolder { folder, error }) == Err::<
            (),
            Seq<char>,
        >("inbox: create "@ + folder@ + ": "@ + error@),
        move_answer(source, destination, InboxMove::NotMoved { error }) == Err::<(), Seq<char>>(
            "inbox: archive "@ + source + " -> "@ + destination + ": "@ + error@,
        ),
{
}

/// Of two moments the later one stands, and the only one where there is no other.
pub proof fn the_later_moment_stands(old: u64, ms: u64)
    ensures
        later(None, ms) == Some(ms),
        old >= ms ==> later(Some(old), ms) == Some(old),
        old <= ms ==> later(Some(old), ms) == Some(ms),
{
}

/// A file whose moment could not be told ends the search with its error, and the latest of
/// those before it stands.
pub proof fn the_first_error_ends_the_search(
    front: Seq<Result<u64, String>>,
    error: String,
    rest: Seq<Result<u64, String>>,
    at: int,
    latest: Option<u64>,
)
    requires
        0 <= at <= front.len(),
        forall|i: int| at <= i < front.len() ==> #[trigger] front[i] is Ok,
    ensures
        latest_from(front + seq![Err(error)] + rest, at, latest) == (
            latest_from(front, at, latest).0,
            Some(error@),
        ),
    decreases front.len() - at,
{
    let files = front + seq![Err(error)] + rest;
    if at < front.len() {
        assert(files[at] == front[at]);
        assert(front[at] is Ok);
        the_first_error_ends_the_search(front, error, rest, at + 1, later(latest, front[at]->Ok_0));
    } else {
        assert(files[at] == Err::<u64, String>(error));
    }
}

/// A day that cannot be read is passed over, and the days behind one that can be are searched
/// with the latest moment so far; the first error among them is the outcome.
pub proof fn days_are_searched_in_turn(
    days: Seq<Option<Vec<Result<u64, String>>>>,
    at: int,
    latest: Option<u64>,
)
    requires
        0 <= at,
    ensures
        at >= days.len() ==> latest_of_days(days, at, latest) == Ok::<Option<u64>, Seq<char>>(latest),
        at < days.len() && days[at] is None ==> latest_of_days(days, at, latest) == latest_of_days(
            days,
            at + 1,
            latest,
        ),
        at < days.len() ==> (days[at] matches Some(files) ==> match latest_from(files@, 0, latest).1 {
            Some(error) => latest_of_days(days, at, latest) == Err::<Option<u64>, Seq<char>>(error),
            None => latest_of_days(days, at, latest) == latest_of_days(
                days,
                at + 1,
                latest_from(files@, 0, latest).0,
            ),
        }),
{
}

} // verus!
