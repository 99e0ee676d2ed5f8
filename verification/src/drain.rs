//! Which messages a drain takes: routine ones that have lain long enough, the youngest of
//! them first, up to a cap.
//!
//! How old a message is is for the caller to say: the function that tells comes as an
//! argument.
use vstd::prelude::*;
use vstd::utf8::is_ascii_chars;

use crate::model::InboxMessage;
use crate::text::{
    ascii_lower, begins, begins_with, first_filled, first_filled_line, has_char, has_part, has_text,
    lowercase,
};

verus! {

/// The routine patterns, each with the reason that it gives, in the order they are tried.
pub open spec fn reason_patterns() -> Seq<(Seq<char>, Seq<char>)> {
    seq![
        ("ci-green"@, "ci green confirmed"@),
        ("local-ship"@, "local ship commit"@),
        ("alpha-pushed"@, "alpha pushed"@),
        ("coverage-pushed"@, "coverage batch pushed"@),
        ("green-batch"@, "green batch"@),
        ("verified"@, "verified"@),
        ("next-slice-shipped"@, "shipped next slice"@),
        ("delivery-confirm"@, "delivery confirm"@),
        ("council"@, "no response needed"@),
    ]
}

/// The reason of the first pattern, from `from` on, that stands in the text.
pub open spec fn first_reason(text: Seq<char>, from: nat) -> Option<Seq<char>>
    decreases reason_patterns().len() - from,
{
    if from >= reason_patterns().len() {
        None
    } else if has_part(text, reason_patterns()[from as int].1) {
        Some(reason_patterns()[from as int].0)
    } else {
        first_reason(text, from + 1)
    }
}

/// Whether a first line has the form of a routine report: it begins with a bracketed tag
/// and asks nothing.
pub open spec fn reports(line: Seq<char>) -> bool {
    begins(line, '[') && line.contains(']') && !line.contains('?')
}

/// Why a message may be drained unseen, if it may: the first line of its body that holds
/// anything is a routine report, and holds a routine pattern in any case. What its file is
/// called does not matter.
pub open spec fn safe_reason(message: InboxMessage) -> Option<Seq<char>> {
    match first_filled_line(message.body@) {
        Some(line) => if reports(line) {
            first_reason(lowercase(line), 0)
        } else {
            None
        },
        None => None,
    }
}

/// A message that may be drained, with the reason and its age.
#[derive(Debug, PartialEq, Eq)]
pub struct InboxDrainCandidate {
    pub message: InboxMessage,
    pub reason: String,
    pub age_seconds: u64,
}

/// The same, with the reason as a sequence of characters.
#[verifier::ext_equal]
pub struct DrainCase {
    pub message: InboxMessage,
    pub reason: Seq<char>,
    pub age_seconds: u64,
}

impl View for InboxDrainCandidate {
    type V = DrainCase;

    open spec fn view(&self) -> DrainCase {
        DrainCase {
            message: self.message,
            reason: self.reason@,
            age_seconds: self.age_seconds,
        }
    }
}

/// The candidates by their views.
pub open spec fn cases(candidates: Seq<InboxDrainCandidate>) -> Seq<DrainCase> {
    candidates.map_values(|candidate: InboxDrainCandidate| candidate@)
}

/// Whether `age_seconds` takes every two moments.
pub open spec fn takes_ages<A: Fn(u64, u64) -> u64>(age_seconds: A) -> bool {
    forall|timestamp_ms: u64, now_ms: u64| call_requires(age_seconds, (timestamp_ms, now_ms))
}

/// Whether the ages are those that `age_seconds` gives the messages that a drain may take.
pub open spec fn are_ages<A: Fn(u64, u64) -> u64>(
    ages: Seq<u64>,
    messages: Seq<InboxMessage>,
    now_ms: u64,
    age_seconds: A,
) -> bool {
    &&& ages.len() == messages.len()
    &&& forall|i: int|
        0 <= i < messages.len() && safe_reason(#[trigger] messages[i]) is Some ==> call_ensures(
            age_seconds,
            (messages[i].timestamp_ms, now_ms),
            ages[i],
        )
}

/// The messages that a drain may take, in the inbox's order: those with a reason whose age
/// reaches the floor.
pub open spec fn stale(messages: Seq<InboxMessage>, ages: Seq<u64>, min_age: u64) -> Seq<DrainCase>
    decreases messages.len(),
{
    if messages.len() == 0 {
        Seq::empty()
    } else {
        let front = stale(messages.drop_last(), ages.drop_last(), min_age);
        match safe_reason(messages.last()) {
            Some(reason) if ages.last() >= min_age => front.push(
                DrainCase { message: messages.last(), reason, age_seconds: ages.last() },
            ),
            _ => front,
        }
    }
}

/// A row that is ordered by age, with one more behind all that are no older.
pub open spec fn placed(row: Seq<DrainCase>, case: DrainCase) -> Seq<DrainCase>
    decreases row.len(),
{
    if row.len() == 0 || row.last().age_seconds <= case.age_seconds {
        row.push(case)
    } else {
        placed(row.drop_last(), case).push(row.last())
    }
}

/// The row ordered by age, the youngest first; of the same age, in the order they had.
pub open spec fn by_age(row: Seq<DrainCase>) -> Seq<DrainCase>
    decreases row.len(),
{
    if row.len() == 0 {
        row
    } else {
        placed(by_age(row.drop_last()), row.last())
    }
}

/// The first of a row, up to a cap.
pub open spec fn capped(row: Seq<DrainCase>, max: nat) -> Seq<DrainCase> {
    if max < row.len() {
        row.take(max as int)
    } else {
        row
    }
}

/// Whether each of a row is no older than those behind it.
pub open spec fn ordered(row: Seq<DrainCase>) -> bool {
    forall|i: int, j: int|
        0 <= i < j < row.len() ==> (#[trigger] row[i]).age_seconds <= (#[trigger] row[j]).age_seconds
}

/// Those of a row that are of one age.
pub open spec fn of_age(row: Seq<DrainCase>, age: u64) -> Seq<DrainCase> {
    row.filter(|case: DrainCase| case.age_seconds == age)
}

proof fn placed_is_ordered(row: Seq<DrainCase>, case: DrainCase)
    requires
        ordered(row),
    ensures
        ordered(placed(row, case)),
        placed(row, case).len() == row.len() + 1,
        placed(row, case).to_multiset() == row.to_multiset().insert(case),
        forall|age: u64|
            #[trigger] of_age(placed(row, case), age) == if case.age_seconds == age {
                of_age(row, age).push(case)
            } else {
                of_age(row, age)
            },
        forall|i: int|
            0 <= i < placed(row, case).len() ==> (#[trigger] placed(row, case)[i] == case
                || row.contains(placed(row, case)[i])),
    decreases row.len(),
{
    broadcast use vstd::seq_lib::group_to_multiset_ensures;

    reveal_with_fuel(Seq::<_>::filter, 2);
    let after = placed(row, case);
    if row.len() == 0 || row.last().age_seconds <= case.age_seconds {
        assert forall|age: u64| #[trigger] of_age(after, age) == if case.age_seconds == age {
            of_age(row, age).push(case)
        } else {
            of_age(row, age)
        } by {
            assert(after.drop_last() =~= row);
        }
    } else {
        let front = row.drop_last();
        placed_is_ordered(front, case);
        let inner = placed(front, case);
        assert(row =~= front.push(row.last()));
        assert(after.drop_last() =~= inner);
        assert forall|age: u64| #[trigger] of_age(after, age) == if case.age_seconds == age {
            of_age(row, age).push(case)
        } else {
            of_age(row, age)
        } by {
            assert(of_age(inner, age) == if case.age_seconds == age {
                of_age(front, age).push(case)
            } else {
                of_age(front, age)
            });
            if case.age_seconds == age {
                assert(row.last().age_seconds != age);
            }
        }
        assert forall|i: int| 0 <= i < after.len() implies (#[trigger] after[i] == case
            || row.contains(after[i])) by {
            if i < inner.len() {
                assert(after[i] == inner[i]);
                if inner[i] != case {
                    let at = front.index_of(inner[i]);
                    assert(row[at] == inner[i]);
                }
            } else {
                assert(row[row.len() - 1] == after[i]);
            }
        }
        assert(ordered(after)) by {
            assert forall|i: int, j: int| 0 <= i < j < after.len() implies (
            #[trigger] after[i]).age_seconds <= (#[trigger] after[j]).age_seconds by {
                assert(after[i] == inner[i]);
                if j < inner.len() {
                    assert(after[j] == inner[j]);
                } else if inner[i] != case {
                    let at = front.index_of(inner[i]);
                    assert(row[at] == inner[i]);
                }
            }
        }
    }
}

/// Ordering by age keeps every member as often as it was there, puts no older one before a
/// younger one, and leaves those of one age in the order they had.
pub proof fn by_age_sorts(row: Seq<DrainCase>)
    ensures
        ordered(by_age(row)),
        by_age(row).len() == row.len(),
        by_age(row).to_multiset() == row.to_multiset(),
        forall|age: u64| #[trigger] of_age(by_age(row), age) == of_age(row, age),
    decreases row.len(),
{
    broadcast use vstd::seq_lib::group_to_multiset_ensures;

    reveal_with_fuel(Seq::<_>::filter, 2);
    if row.len() > 0 {
        let front = row.drop_last();
        by_age_sorts(front);
        placed_is_ordered(by_age(front), row.last());
        assert(row =~= front.push(row.last()));
        assert forall|age: u64| #[trigger] of_age(by_age(row), age) == of_age(row, age) by {
            assert(of_age(by_age(front), age) == of_age(front, age));
        }
    }
}

/// No message that a drain leaves behind for want of room is younger than one it takes.
pub proof fn the_youngest_go_first(row: Seq<DrainCase>, max: nat)
    ensures
        capped(by_age(row), max).len() == if max < row.len() {
            max
        } else {
            row.len()
        },
        forall|i: int, j: int|
            0 <= i < capped(by_age(row), max).len() <= j < row.len() ==> (#[trigger] capped(
                by_age(row),
                max,
            )[i]).age_seconds <= (#[trigger] by_age(row)[j]).age_seconds,
{
    by_age_sorts(row);
}

/// What a drain may take is never a question, always has a routine pattern, and is never
/// younger than the floor.
pub proof fn stale_is_safe(messages: Seq<InboxMessage>, ages: Seq<u64>, min_age: u64)
    requires
        ages.len() == messages.len(),
    ensures
        forall|k: int|
            0 <= k < stale(messages, ages, min_age).len() ==> {
                let case = #[trigger] stale(messages, ages, min_age)[k];
                &&& messages.contains(case.message)
                &&& safe_reason(case.message) == Some(case.reason)
                &&& case.age_seconds >= min_age
                &&& first_filled_line(case.message.body@) matches Some(line) && reports(line)
            },
        stale(messages, ages, min_age).len() <= messages.len(),
    decreases messages.len(),
{
    if messages.len() > 0 {
        let front = messages.drop_last();
        stale_is_safe(front, ages.drop_last(), min_age);
        let before = stale(front, ages.drop_last(), min_age);
        let after = stale(messages, ages, min_age);
        assert forall|k: int| 0 <= k < after.len() implies messages.contains(
            (#[trigger] after[k]).message,
        ) by {
            if k < before.len() {
                assert(after[k] == before[k]);
                let at = front.index_of(before[k].message);
                assert(messages[at] == before[k].message);
            } else {
                assert(messages[messages.len() - 1] == after[k].message);
            }
        }
        assert forall|k: int| 0 <= k < after.len() implies {
            let case = #[trigger] after[k];
            &&& safe_reason(case.message) == Some(case.reason)
            &&& case.age_seconds >= min_age
        } by {
            if k < before.len() {
                assert(after[k] == before[k]);
            }
        }
    }
}

proof fn by_age_keeps_members(row: Seq<DrainCase>, case: DrainCase)
    requires
        by_age(row).contains(case),
    ensures
        row.contains(case),
{
    broadcast use vstd::seq_lib::group_to_multiset_ensures;

    by_age_sorts(row);
    assert(by_age(row).to_multiset().count(case) > 0);
    assert(row.to_multiset().count(case) > 0);
}

/// What a drain takes comes from the inbox, has a routine pattern, asks nothing in its first
/// line, is never younger than the floor, and is never more than the cap.
pub proof fn what_is_taken_is_safe(
    messages: Seq<InboxMessage>,
    ages: Seq<u64>,
    min_age: u64,
    max: nat,
)
    requires
        ages.len() == messages.len(),
    ensures
        ({
            let taken = capped(by_age(stale(messages, ages, min_age)), max);
            &&& taken.len() <= max
            &&& forall|k: int|
                0 <= k < taken.len() ==> {
                    let case = #[trigger] taken[k];
                    &&& messages.contains(case.message)
                    &&& safe_reason(case.message) == Some(case.reason)
                    &&& case.age_seconds >= min_age
                    &&& first_filled_line(case.message.body@) matches Some(line) && !line.contains(
                        '?',
                    )
                }
        }),
{
    let all = stale(messages, ages, min_age);
    let taken = capped(by_age(all), max);
    stale_is_safe(messages, ages, min_age);
    by_age_sorts(all);
    assert forall|k: int| 0 <= k < taken.len() implies {
        let case = #[trigger] taken[k];
        &&& messages.contains(case.message)
        &&& safe_reason(case.message) == Some(case.reason)
        &&& case.age_seconds >= min_age
        &&& first_filled_line(case.message.body@) matches Some(line) && !line.contains('?')
    } by {
        assert(by_age(all)[k] == taken[k]);
        by_age_keeps_members(all, taken[k]);
        let at = all.index_of(taken[k]);
        assert(all[at] == taken[k]);
    }
}

/// A drain may take every message that has a reason and is old enough.
pub proof fn nothing_stale_is_missed(
    messages: Seq<InboxMessage>,
    ages: Seq<u64>,
    min_age: u64,
    at: int,
)
    requires
        ages.len() == messages.len(),
        0 <= at < messages.len(),
        safe_reason(messages[at]) is Some,
        ages[at] >= min_age,
    ensures
        stale(messages, ages, min_age).contains(
            DrainCase {
                message: messages[at],
                reason: safe_reason(messages[at])->0,
                age_seconds: ages[at],
            },
        ),
    decreases messages.len(),
{
    let case = DrainCase {
        message: messages[at],
        reason: safe_reason(messages[at])->0,
        age_seconds: ages[at],
    };
    let all = stale(messages, ages, min_age);
    if at == messages.len() - 1 {
        assert(all.last() == case);
    } else {
        let before = stale(messages.drop_last(), ages.drop_last(), min_age);
        nothing_stale_is_missed(messages.drop_last(), ages.drop_last(), min_age, at);
        assert(all[before.index_of(case)] == case);
    }
}

proof fn placed_is_insert(row: Seq<DrainCase>, case: DrainCase, at: int)
    requires
        0 <= at <= row.len(),
        at > 0 ==> row[at - 1].age_seconds <= case.age_seconds,
        forall|i: int| at <= i < row.len() ==> (#[trigger] row[i]).age_seconds > case.age_seconds,
    ensures
        placed(row, case) == row.insert(at, case),
    decreases row.len(),
{
    if at < row.len() {
        placed_is_insert(row.drop_last(), case, at);
        assert(row.drop_last().insert(at, case).push(row.last()) =~= row.insert(at, case));
    } else {
        assert(row.push(case) =~= row.insert(at, case));
    }
}

/// Whether `age_seconds` answers alike each time it is asked the same.
pub open spec fn answers_alike<A: Fn(u64, u64) -> u64>(age_seconds: A) -> bool {
    forall|timestamp_ms: u64, now_ms: u64, a: u64, b: u64| #[trigger]
        call_ensures(age_seconds, (timestamp_ms, now_ms), a) && #[trigger] call_ensures(
            age_seconds,
            (timestamp_ms, now_ms),
            b,
        ) ==> a == b
}

/// Where ages are told alike each time, what a drain may take is the same each time.
pub proof fn same_ages_same_stale<A: Fn(u64, u64) -> u64>(
    messages: Seq<InboxMessage>,
    now_ms: u64,
    age_seconds: A,
    ages: Seq<u64>,
    others: Seq<u64>,
    min_age: u64,
)
    requires
        answers_alike(age_seconds),
        are_ages(ages, messages, now_ms, age_seconds),
        are_ages(others, messages, now_ms, age_seconds),
    ensures
        stale(messages, ages, min_age) == stale(messages, others, min_age),
    decreases messages.len(),
{
    if messages.len() > 0 {
        let front = messages.drop_last();
        assert forall|i: int| 0 <= i < front.len() && safe_reason(#[trigger] front[i]) is Some implies {
            &&& call_ensures(age_seconds, (front[i].timestamp_ms, now_ms), ages.drop_last()[i])
            &&& call_ensures(age_seconds, (front[i].timestamp_ms, now_ms), others.drop_last()[i])
        } by {
            assert(safe_reason(messages[i]) is Some);
        }
        same_ages_same_stale(
            front,
            now_ms,
            age_seconds,
            ages.drop_last(),
            others.drop_last(),
            min_age,
        );
        let last = messages.len() - 1;
        if safe_reason(messages[last]) is Some {
            assert(call_ensures(age_seconds, (messages[last].timestamp_ms, now_ms), ages[last]));
            assert(call_ensures(age_seconds, (messages[last].timestamp_ms, now_ms), others[last]));
        }
    }
}

/// The routine patterns, each with the reason that it gives.
pub fn inbox_safe_reason_patterns() -> (patterns: Vec<(&'static str, &'static str)>)
    ensures
        patterns@.len() == reason_patterns().len(),
        forall|i: int|
            0 <= i < patterns@.len() ==> ((#[trigger] patterns@[i]).0@, patterns@[i].1@)
                == reason_patterns()[i],
{
    vec![
        ("ci-green", "ci green confirmed"),
        ("local-ship", "local ship commit"),
        ("alpha-pushed", "alpha pushed"),
        ("coverage-pushed", "coverage batch pushed"),
        ("green-batch", "green batch"),
        ("verified", "verified"),
        ("next-slice-shipped", "shipped next slice"),
        ("delivery-confirm", "delivery confirm"),
        ("council", "no response needed"),
    ]
}

/// The reason of the first routine pattern that stands in a text in lower case.
pub fn inbox_first_reason(lower: &str) -> (reason: Option<String>)
    ensures
        match reason {
            Some(reason) => first_reason(lower@, 0) == Some(reason@),
            None => first_reason(lower@, 0) is None,
        },
{
    let patterns = inbox_safe_reason_patterns();
    let mut index: usize = 0;
    while index < patterns.len()
        invariant
            patterns@.len() == reason_patterns().len(),
            forall|i: int|
                0 <= i < patterns@.len() ==> ((#[trigger] patterns@[i]).0@, patterns@[i].1@)
                    == reason_patterns()[i],
            index <= patterns.len(),
            first_reason(lower@, 0) == first_reason(lower@, index as nat),
        decreases patterns.len() - index,
    {
        let (reason, needle) = patterns[index];
        assert((patterns@[index as int].0@, patterns@[index as int].1@)
            == reason_patterns()[index as int]);
        if has_text(lower, needle) {
            return Some(reason.to_owned());
        }
        index += 1;
    }
    None
}

/// Why a message may be drained unseen, if it may. Of an ASCII line the letters `A` to `Z`
/// count as their small letters.
pub fn inbox_safe_drain_reason(message: &InboxMessage) -> (reason: Option<String>)
    ensures
        match reason {
            Some(reason) => safe_reason(*message) == Some(reason@),
            None => safe_reason(*message) is None,
        },
        first_filled_line(message.body@) matches Some(line) ==> (reports(line) && is_ascii_chars(
            line,
        ) ==> match reason {
            Some(reason) => first_reason(line.map_values(|c: char| ascii_lower(c)), 0) == Some(
                reason@,
            ),
            None => first_reason(line.map_values(|c: char| ascii_lower(c)), 0) is None,
        }),
{
    let line = match first_filled(message.body.as_str()) {
        Some(line) => line,
        None => {
            return None;
        },
    };
    if !begins_with(line, '[') || !has_char(line, ']') || has_char(line, '?') {
        return None;
    }
    let lower = line.to_lowercase();
    inbox_first_reason(lower.as_str())
}

/// The messages that a drain may take.
pub fn inbox_drain_candidates<A: Fn(u64, u64) -> u64>(
    messages: &[InboxMessage],
    now_ms: u64,
    min_age: u64,
    age_seconds: &A,
) -> (candidates: Vec<InboxDrainCandidate>)
    requires
        takes_ages(*age_seconds),
    ensures
        exists|ages: Seq<u64>|
            #[trigger] are_ages(ages, messages@, now_ms, *age_seconds) && cases(candidates@)
                == stale(messages@, ages, min_age),
{
    let mut candidates: Vec<InboxDrainCandidate> = Vec::new();
    let ghost mut ages: Seq<u64> = Seq::empty();
    let mut index: usize = 0;
    while index < messages.len()
        invariant
            takes_ages(*age_seconds),
            index <= messages.len(),
            are_ages(ages, messages@.take(index as int), now_ms, *age_seconds),
            cases(candidates@) =~= stale(messages@.take(index as int), ages, min_age),
        decreases messages.len() - index,
    {
        let message = &messages[index];
        let mut age: u64 = 0;
        let ghost upto = messages@.take(index as int);
        let ghost next = messages@.take(index + 1);
        assert(next.drop_last() =~= upto);
        if let Some(reason) = inbox_safe_drain_reason(message) {
            age = age_seconds(message.timestamp_ms, now_ms);
            if age >= min_age {
                candidates.push(
                    InboxDrainCandidate { message: message.clone(), reason, age_seconds: age },
                );
            }
        }
        proof {
            let grown = ages.push(age);
            assert(grown.drop_last() =~= ages);
            assert forall|i: int| 0 <= i < next.len() && safe_reason(#[trigger] next[i]) is Some
                implies call_ensures(*age_seconds, (next[i].timestamp_ms, now_ms), grown[i]) by {
                if i < upto.len() {
                    assert(upto[i] == next[i]);
                }
            }
            ages = grown;
        }
        index += 1;
    }
    assert(messages@.take(index as int) =~= messages@);
    candidates
}

/// The candidates that a drain takes: the youngest first, up to the cap.
pub fn inbox_select_candidates(candidates: Vec<InboxDrainCandidate>, max: usize) -> (selected: Vec<
    InboxDrainCandidate,
>)
    ensures
        cases(selected@) == capped(by_age(cases(candidates@)), max as nat),
{
    let ghost all = cases(candidates@);
    let total: usize = candidates.len();
    let mut rest = candidates;
    let mut sorted: Vec<InboxDrainCandidate> = Vec::new();
    let mut taken: usize = 0;
    assert(all.take(0) =~= Seq::<DrainCase>::empty());
    while taken < total
        invariant
            taken <= total,
            total == all.len(),
            cases(rest@) =~= all.skip(taken as int),
            cases(sorted@) =~= by_age(all.take(taken as int)),
        decreases total - taken,
    {
        let ghost before = rest@;
        assert(cases(before).len() == before.len());
        let candidate = rest.remove(0);
        assert(candidate@ == cases(before)[0]);
        assert(cases(rest@) =~= cases(before).drop_first());
        let mut at: usize = sorted.len();
        while at > 0 && sorted[at - 1].age_seconds > candidate.age_seconds
            invariant
                at <= sorted.len(),
                forall|i: int|
                    at <= i < sorted@.len() ==> (#[trigger] sorted@[i]).age_seconds
                        > candidate.age_seconds,
            decreases at,
        {
            at -= 1;
        }
        proof {
            let row = cases(sorted@);
            assert forall|i: int| at <= i < row.len() implies (#[trigger] row[i]).age_seconds
                > candidate@.age_seconds by {
                assert(sorted@[i].age_seconds > candidate.age_seconds);
            }
            placed_is_insert(row, candidate@, at as int);
            assert(cases(sorted@.insert(at as int, candidate)) =~= row.insert(
                at as int,
                candidate@,
            ));
            assert(all.take(taken + 1).drop_last() =~= all.take(taken as int));
        }
        sorted.insert(at, candidate);
        taken += 1;
    }
    assert(all.take(taken as int) =~= all);
    let ghost row = cases(sorted@);
    if max < sorted.len() {
        sorted.truncate(max);
        assert(cases(sorted@) =~= row.take(max as int));
    }
    sorted
}

} // verus!
