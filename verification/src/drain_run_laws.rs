//! What the steps of a drain and its report come to.
use vstd::prelude::*;

use crate::archive::{archive_name, day_of, is_folder};
use crate::config::InboxEnv;
use crate::decimal::decimal;
use crate::drain::{are_ages, by_age, capped, safe_reason, stale, DrainCase};
use crate::drain_args::{drain_plan, DrainPlan};
use crate::drain_report::{
    are_item_lines, headline, is_drain_output, is_item_line, is_pretty, is_report_text, item_line, local_plan,
    place_line, remarks, words_span,
};
use crate::drain_run::{
    drain_moves_on, drain_of, drained_oracle, due, is_report, item_of, turned,
    InboxDrainAction, InboxDrainEvent, InboxDrainItem, InboxDrainPhase, InboxDrainResult,
    InboxDrainRun,
};
use crate::model::InboxMessage;
use crate::show::labels;
use crate::text::joined;

verus! {

/// An item is seen as it is.
pub proof fn items_are_seen_whole(item: InboxDrainItem)
    ensures
        item@.id == item.id@,
        item@.filename == item.filename@,
        item@.reason == item.reason@,
        item@.age_seconds == item.age_seconds,
        item.destination is None <==> item@.destination is None,
        item.destination matches Some(destination) ==> item@.destination == Some(destination@),
        item@.action == item.action@,
{
}

/// The item of a message tells it, why it was taken, how old it is, where it goes, and whether
/// it went there.
pub proof fn items_tell_their_message(case: DrainCase, destination: Seq<char>, dry_run: bool)
    ensures
        item_of(case, destination, dry_run).id == case.message.id@,
        item_of(case, destination, dry_run).filename == case.message.filename@,
        item_of(case, destination, dry_run).reason == case.reason,
        item_of(case, destination, dry_run).age_seconds == case.age_seconds,
        item_of(case, destination, dry_run).destination == Some(destination),
        item_of(case, destination, true).action == "would_archive"@,
        item_of(case, destination, false).action == "archived"@,
{
}

/// A report tells the oracle that was asked for or else the inbox's own, the counts, what was
/// asked, and every item; and what remains is what matched and was not taken.
pub proof fn reports_tell_what_was_done(
    result: InboxDrainResult,
    oracle: Seq<char>,
    plan: DrainPlan,
    matched: nat,
    scanned: nat,
    dir: Seq<char>,
    items: Seq<InboxDrainItem>,
)
    requires
        is_report(result, oracle, plan, matched, scanned, dir, items),
    ensures
        plan.oracle matches Some(asked) ==> result.oracle@ == asked,
        plan.oracle is None ==> result.oracle@ == oracle,
        result.scanned == scanned,
        result.matched == matched,
        result.archived == items.len(),
        items.len() <= matched ==> result.archived + result.remaining_matches == matched,
        items.len() > matched ==> result.remaining_matches == 0,
        result.max == plan.max,
        result.dry_run == plan.dry_run,
        result.safe,
        result.older_than_seconds == plan.older_than_seconds,
        result.processed_dir@ == dir,
        result.items@ == items,
{
}

/// A drain takes, of all the inbox's messages, as many as its cap allows of those that are
/// routine and old enough, the youngest first; and it counts them all.
pub proof fn a_drain_takes_what_it_may<A: Fn(u64, u64) -> u64>(
    run: InboxDrainRun,
    messages: Seq<InboxMessage>,
    now_ms: u64,
    age_seconds: A,
    model: spec_fn(u64, u64) -> u64,
)
    requires
        run.wf(),
        drain_of(run, messages, now_ms, age_seconds),
        run.plan().older_than_seconds <= u64::MAX,
        forall|sent: u64, now: u64, answer: u64| #[trigger]
            call_ensures(age_seconds, (sent, now), answer) ==> answer == model(sent, now),
    ensures
        run.scanned() == messages.len(),
        run.selected().len() == if run.plan().max < run.matched() {
            run.plan().max
        } else {
            run.matched()
        },
        forall|k: int|
            0 <= k < run.selected().len() ==> {
                let case = #[trigger] run.selected()[k];
                &&& messages.contains(case.message)
                &&& safe_reason(case.message) == Some(case.reason)
                &&& case.age_seconds >= run.plan().older_than_seconds
            },
        forall|j: int, k: int|
            0 <= j < k < run.selected().len() ==> (#[trigger] run.selected()[j]).age_seconds <= (
            #[trigger] run.selected()[k]).age_seconds,
        run.plan().max >= run.matched() ==> forall|i: int|
            0 <= i < messages.len() && safe_reason(#[trigger] messages[i]) is Some && model(
                messages[i].timestamp_ms,
                now_ms,
            ) >= run.plan().older_than_seconds ==> run.selected().contains(
                DrainCase {
                    message: messages[i],
                    reason: safe_reason(messages[i])->0,
                    age_seconds: model(messages[i].timestamp_ms, now_ms),
                },
            ),
{
    let min_age = run.plan().older_than_seconds as u64;
    let ages = choose|ages: Seq<u64>|
        {
            &&& #[trigger] are_ages(ages, messages, now_ms, age_seconds)
            &&& run.matched() == stale(messages, ages, min_age).len()
            &&& run.selected() == capped(by_age(stale(messages, ages, min_age)), run.plan().max)
        };
    let all = stale(messages, ages, min_age);
    crate::drain::what_is_taken_is_safe(messages, ages, min_age, run.plan().max);
    crate::drain::by_age_sorts(all);
    crate::drain_laws::ages_are_the_answers(ages, messages, now_ms, age_seconds, model);
    crate::drain_laws::a_drain_takes_the_first_by_age(all, run.plan().max, 0);
    assert forall|j: int, k: int| 0 <= j < k < run.selected().len() implies (
    #[trigger] run.selected()[j]).age_seconds <= (#[trigger] run.selected()[k]).age_seconds by {
        assert(run.selected()[j] == by_age(all)[j]);
        assert(run.selected()[k] == by_age(all)[k]);
    }
    if run.plan().max >= run.matched() {
        assert(run.selected() =~= by_age(all));
        assert forall|i: int|
            0 <= i < messages.len() && safe_reason(#[trigger] messages[i]) is Some && model(
                messages[i].timestamp_ms,
                now_ms,
            ) >= run.plan().older_than_seconds implies run.selected().contains(
            DrainCase {
                message: messages[i],
                reason: safe_reason(messages[i])->0,
                age_seconds: model(messages[i].timestamp_ms, now_ms),
            },
        ) by {
            broadcast use vstd::seq_lib::group_to_multiset_ensures;

            assert(ages[i] == model(messages[i].timestamp_ms, now_ms));
            crate::drain::nothing_stale_is_missed(messages, ages, min_age, i);
            let case = DrainCase {
                message: messages[i],
                reason: safe_reason(messages[i])->0,
                age_seconds: ages[i],
            };
            assert(all.to_multiset().count(case) > 0);
            assert(by_age(all).to_multiset().count(case) > 0);
        }
    }
}

/// A drain's folder is `processed` below the inbox and the day of the moment below that.
pub proof fn a_drain_goes_into_its_days_folder<I: Fn(u64) -> String>(
    run: InboxDrainRun,
    env: InboxEnv,
    now_ms: u64,
    iso_label: I,
    model: spec_fn(u64) -> Seq<char>,
)
    requires
        is_folder(run.folder(), env, now_ms, iso_label),
        crate::show_laws::labels_by(iso_label, model),
    ensures
        run.folder().0 == env.inbox_dir@.0,
        run.folder().1 == env.inbox_dir@.1 + seq!["processed"@, day_of(model(now_ms))],
{
    let label = choose|label: Seq<char>|
        #[trigger] labels(iso_label, now_ms, label) && run.folder()
            == crate::config::processed_place(env, day_of(label));
    crate::show_laws::labels_are_the_answers(iso_label, model, now_ms, label);
    crate::command_laws::archives_lie_below_the_inbox(env, day_of(label));
}

/// A drain that turns to a message asks first whether the message's own name is free in its
/// folder.
pub proof fn a_message_is_tried_under_its_own_name(run: InboxDrainRun, action: InboxDrainAction)
    requires
        turned(run),
        due(run, action),
    ensures
        run.items().len() < run.selected().len() ==> (action matches InboxDrainAction::Probe { path }
            && path@ == (run.folder().0, run.folder().1.push(run.current().message.filename@))),
        run.items().len() >= run.selected().len() ==> action is Report,
{
}

/// No step changes what a drain was asked, where its messages go, how many there were and
/// might be taken, or which of them it takes.
pub proof fn a_step_keeps_the_drain(
    before: InboxDrainRun,
    event: InboxDrainEvent,
    after: InboxDrainRun,
)
    requires
        drain_moves_on(before, event, after),
    ensures
        after.plan() == before.plan(),
        after.folder() == before.folder(),
        after.scanned() == before.scanned(),
        after.matched() == before.matched(),
        after.selected() == before.selected(),
{
}

/// A name that is taken is followed by the next number, for the same message, and nothing else
/// changes.
pub proof fn a_taken_name_is_followed_by_the_next(
    before: InboxDrainRun,
    destination: String,
    after: InboxDrainRun,
    action: InboxDrainAction,
)
    requires
        before.phase() is Probing,
        drain_moves_on(before, InboxDrainEvent::Probed { taken: true, destination }, after),
        due(after, action),
    ensures
        after.items() == before.items(),
        after.selected() == before.selected(),
        before.phase() matches InboxDrainPhase::Probing(search) ==> (
        action matches InboxDrainAction::Probe { path } && path@ == (
            before.folder().0,
            before.folder().1.push(
                archive_name(search.filename(), search.md(), search.tries() + 1),
            ),
        )),
{
}

/// A free name settles the message in a dry run, and is moved to in another one; a message that
/// was moved is settled with the destination that was found free.
pub proof fn a_free_name_is_used(
    before: InboxDrainRun,
    destination: String,
    after: InboxDrainRun,
    action: InboxDrainAction,
)
    requires
        before.phase() is Probing,
        drain_moves_on(before, InboxDrainEvent::Probed { taken: false, destination }, after),
        due(after, action),
    ensures
        before.plan().dry_run ==> {
            &&& after.items().len() == before.items().len() + 1
            &&& after.items().last()@.filename == before.current().message.filename@
            &&& after.items().last()@.destination == Some(destination@)
            &&& after.items().last()@.action == "would_archive"@
        },
        !before.plan().dry_run ==> {
            &&& after.items() == before.items()
            &&& action matches InboxDrainAction::Move { source, path, destination: shown }
            &&& source@ == before.current().message.path@
            &&& shown@ == destination@
        },
{
}

/// A message that was moved has its item, with the destination it was moved to; one that was
/// not ends the drain with the error, and no other message is touched.
pub proof fn a_move_settles_or_ends(
    before: InboxDrainRun,
    came: Result<(), String>,
    after: InboxDrainRun,
    action: InboxDrainAction,
)
    requires
        before.phase() is Moving,
        drain_moves_on(before, InboxDrainEvent::Moved(came), after),
        due(after, action),
    ensures
        came is Ok ==> {
            &&& after.items().len() == before.items().len() + 1
            &&& after.items().drop_last() == before.items()
            &&& after.items().last()@.id == before.current().message.id@
            &&& after.items().last()@.filename == before.current().message.filename@
            &&& after.items().last()@.reason == before.current().reason
            &&& after.items().last()@.age_seconds == before.current().age_seconds
            &&& before.phase() matches InboxDrainPhase::Moving { destination, .. }
            &&& after.items().last()@.destination == Some(destination@)
        },
        came matches Err(error) ==> {
            &&& after.items() == before.items()
            &&& action matches InboxDrainAction::Fail { error: told }
            &&& told@ == error@
        },
{
}

/// The first line of a report tells the oracle, whether anything was archived, and the four
/// counts.
pub proof fn a_headline_tells_the_counts(result: InboxDrainResult)
    ensures
        result.dry_run ==> headline(result) == result.oracle@ + ": would archive "@ + decimal(
            result.archived as nat,
        ) + "/"@ + decimal(result.scanned as nat)
            + " scanned inbox message(s) (safe stale matches "@ + decimal(result.matched as nat)
            + ", max "@ + decimal(result.max as nat) + ")"@,
        !result.dry_run ==> headline(result) == result.oracle@ + ": archived "@ + decimal(
            result.archived as nat,
        ) + "/"@ + decimal(result.scanned as nat)
            + " scanned inbox message(s) (safe stale matches "@ + decimal(result.matched as nat)
            + ", max "@ + decimal(result.max as nat) + ")"@,
{
    reveal_strlit(": ");
    reveal_strlit(" ");
    reveal_strlit("would archive");
    reveal_strlit("archived");
    reveal_strlit(": would archive ");
    reveal_strlit(": archived ");
    assert(": "@ + "would archive"@ + " "@ =~= ": would archive "@);
    assert(": "@ + "archived"@ + " "@ =~= ": archived "@);
    let tail = decimal(result.archived as nat) + "/"@ + decimal(result.scanned as nat)
        + " scanned inbox message(s) (safe stale matches "@ + decimal(result.matched as nat)
        + ", max "@ + decimal(result.max as nat) + ")"@;
    assert(result.dry_run ==> headline(result) =~= result.oracle@ + ": would archive "@ + tail);
    assert(!result.dry_run ==> headline(result) =~= result.oracle@ + ": archived "@ + tail);
    assert(result.oracle@ + ": would archive "@ + tail =~= result.oracle@ + ": would archive "@
        + decimal(result.archived as nat) + "/"@ + decimal(result.scanned as nat)
        + " scanned inbox message(s) (safe stale matches "@ + decimal(result.matched as nat)
        + ", max "@ + decimal(result.max as nat) + ")"@);
    assert(result.oracle@ + ": archived "@ + tail =~= result.oracle@ + ": archived "@ + decimal(
        result.archived as nat,
    ) + "/"@ + decimal(result.scanned as nat) + " scanned inbox message(s) (safe stale matches "@
        + decimal(result.matched as nat) + ", max "@ + decimal(result.max as nat) + ")"@);
}

/// The line of an item, from what the caller's function makes of its age.
pub open spec fn item_line_of(
    item: InboxDrainItem,
    model: spec_fn(Option<u64>) -> Seq<char>,
) -> Seq<char> {
    "   - "@ + item.filename@ + " ["@ + item.reason@ + ", "@ + model(Some(item.age_seconds)) + "]"@
}

/// A report in words has its headline, a line on what remains where anything does, one that
/// nothing was found where nothing was, a line for each of the first ten items, in order, and a
/// line on the folder; each ends with a line end.
pub proof fn a_report_has_its_lines<D: Fn(Option<u64>) -> String>(
    text: Seq<char>,
    result: InboxDrainResult,
    wording: D,
    model: spec_fn(Option<u64>) -> Seq<char>,
)
    requires
        is_report_text(text, result, wording),
        forall|span: Option<u64>, answer: String| #[trigger]
            call_ensures(wording, (span,), answer) ==> answer@ == model(span),
    ensures
        text == joined(
            seq![headline(result)] + (if result.remaining_matches > 0 {
                seq![
                    "   → "@ + decimal(result.remaining_matches as nat)
                        + " safe match(es) remain after max cap"@,
                ]
            } else {
                Seq::empty()
            }) + (if result.items@.len() == 0 {
                seq!["   → no messages matched the safe stale-ack filter"@]
            } else {
                Seq::empty()
            }) + Seq::new(
                if result.items@.len() < 10 {
                    result.items@.len()
                } else {
                    10
                },
                |k: int| item_line_of(result.items@[k], model),
            ) + seq![
                (if result.dry_run {
                    "   → preview: "@
                } else {
                    "   → processed: "@
                }) + result.processed_dir@,
            ],
            "\n"@,
        ) + "\n"@,
{
    let lines = choose|lines: Seq<Seq<char>>|
        {
            &&& #[trigger] are_item_lines(lines, result.items@, wording)
            &&& text == joined(
                seq![headline(result)] + remarks(result) + lines + seq![place_line(result)],
                "\n"@,
            ) + "\n"@
        };
    let count: nat = if result.items@.len() < 10 {
        result.items@.len()
    } else {
        10
    };
    let told = Seq::new(count, |k: int| item_line_of(result.items@[k], model));
    assert forall|k: int| 0 <= k < lines.len() implies lines[k] == told[k] by {
        assert(is_item_line(lines[k], result.items@[k], wording));
        let age = choose|age: Seq<char>|
            #[trigger] words_span(wording, result.items@[k].age_seconds, age) && lines[k]
                == item_line(result.items@[k], age);
        assert(age == model(Some(result.items@[k].age_seconds)));
    }
    assert(lines =~= told);
    reveal_strlit("   → ");
    reveal_strlit("preview");
    reveal_strlit("processed");
    reveal_strlit(": ");
    reveal_strlit("   → preview: ");
    reveal_strlit("   → processed: ");
    assert("   → "@ + "preview"@ + ": "@ =~= "   → preview: "@);
    assert("   → "@ + "processed"@ + ": "@ =~= "   → processed: "@);
    let left: Seq<Seq<char>> = if result.remaining_matches > 0 {
        seq![
            "   → "@ + decimal(result.remaining_matches as nat)
                + " safe match(es) remain after max cap"@,
        ]
    } else {
        Seq::empty()
    };
    let none: Seq<Seq<char>> = if result.items@.len() == 0 {
        seq!["   → no messages matched the safe stale-ack filter"@]
    } else {
        Seq::empty()
    };
    let place = (if result.dry_run {
        "   → preview: "@
    } else {
        "   → processed: "@
    }) + result.processed_dir@;
    assert(place_line(result) =~= place);
    assert(seq![headline(result)] + remarks(result) + lines + seq![place_line(result)]
        =~= seq![headline(result)] + left + none + told + seq![place]);
}

/// A report as JSON is what the caller's function writes, with one line end behind it, and its
/// error where it cannot.
pub proof fn json_is_what_was_written<T, E: FnOnce(&T) -> Result<String, String>>(
    result: Result<String, String>,
    value: T,
    encode: E,
    model: Result<Seq<char>, Seq<char>>,
)
    requires
        is_pretty(result, value, encode),
        forall|answer: Result<String, String>| #[trigger]
            call_ensures(encode, (&value,), answer) ==> crate::text::outcome(answer) == model,
    ensures
        model matches Ok(json) ==> (result matches Ok(text) && text@ == json + "\n"@),
        model matches Err(error) ==> (result matches Err(told) && told@ == error),
{
}

/// A drain of another oracle's inbox is refused; one of the own, or of none by name, has the
/// plan that the arguments give, unchanged, and what the arguments are refused with stands.
pub proof fn only_the_own_inbox_is_drained(argv: Seq<Seq<char>>, oracle: Seq<char>)
    ensures
        drain_plan(argv) matches Ok(plan) ==> match plan.oracle {
            Some(asked) => if asked == oracle {
                local_plan(argv, oracle) == Ok::<DrainPlan, Seq<char>>(plan)
            } else {
                local_plan(argv, oracle) == Err::<DrainPlan, Seq<char>>(
                    "inbox: native drain currently supports local inbox only"@,
                )
            },
            None => local_plan(argv, oracle) == Ok::<DrainPlan, Seq<char>>(plan),
        },
        drain_plan(argv) matches Err(error) ==> local_plan(argv, oracle) == Err::<
            DrainPlan,
            Seq<char>,
        >(error),
        forall|plan: DrainPlan| #[trigger]
            drained_oracle(plan, oracle) == (match plan.oracle {
                Some(asked) => asked,
                None => oracle,
            }),
{
}

/// What a drain failed with is what the command fails with; its report is printed as JSON exactly
/// where that was asked for, and else in words.
pub proof fn a_drain_prints_its_report<
    E: FnOnce(&InboxDrainResult) -> Result<String, String>,
    D: Fn(Option<u64>) -> String,
>(
    result: Result<String, String>,
    json: bool,
    error: String,
    report: InboxDrainResult,
    encode: E,
    format_duration: D,
)
    ensures
        is_drain_output(result, json, Err(error), encode, format_duration) ==> (
        result matches Err(told) && told@ == error@),
        is_drain_output(result, true, Ok(report), encode, format_duration) ==> is_pretty(
            result,
            report,
            encode,
        ),
        is_drain_output(result, false, Ok(report), encode, format_duration) ==> (
        result matches Ok(text) && is_report_text(text@, report, format_duration)),
{
}

} // verus!
