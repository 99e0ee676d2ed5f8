//! What the arguments of a drain come to, one at a time and together.
use vstd::prelude::*;

use crate::args::{count_value, hours_fit, hours_value, target_ok};
use crate::decimal::decimal;
use crate::drain_args::{
    confirmed_plan, drain_args_fit, drain_heads, drain_plan, drain_reading,
    drain_reading_looks_ahead, drain_step, unread_args, with_age, with_max, DrainPlan,
    DrainReading, InboxDrainOptions,
};
use crate::text::{begins, without_heads};
use crate::value_laws::printed_hours_are_exact;

verus! {

/// The options are seen as they are.
pub proof fn drain_options_are_seen_whole(options: InboxDrainOptions)
    ensures
        options.oracle is None <==> options@.oracle is None,
        options.oracle matches Some(oracle) ==> options@.oracle == Some(oracle@),
        options@.json == options.json,
        options@.dry_run == options.dry_run,
        options@.max == options.max,
        options@.older_than_seconds == options.older_than_seconds,
{
}

/// What arguments make of a plan and of whether `--safe` was among those before them: the two
/// after the last argument, and the error that ended the reading, if one did.
pub open spec fn comes_to(argv: Seq<Seq<char>>, plan: DrainPlan, safe: bool) -> (
    DrainPlan,
    bool,
    Option<Seq<char>>,
) {
    let read = drain_reading(argv, DrainReading { plan, safe, index: 0, error: None });
    (read.plan, read.safe, read.error)
}

proof fn reads_on(
    front: Seq<Seq<char>>,
    rest: Seq<Seq<char>>,
    before: DrainReading,
    after: DrainReading,
)
    requires
        front.len() > 0,
        before.index == 0,
        before.error is None,
        after.error is None,
        drain_step(front + rest, before) == (DrainReading { index: front.len() - 1, ..after }),
        after.index == 0,
    ensures
        comes_to(front + rest, before.plan, before.safe) == comes_to(rest, after.plan, after.safe),
{
    drain_reading_looks_ahead(front, rest, after);
    let start = DrainReading { plan: before.plan, safe: before.safe, index: 0, error: None };
    assert(start == before);
    let next = DrainReading { plan: after.plan, safe: after.safe, index: 0, error: None };
    assert(next == after);
    let step = drain_step(front + rest, before);
    assert(DrainReading { index: step.index + 1, ..step } == (DrainReading {
        index: front.len() + after.index,
        ..after
    }));
}

/// The plan of a drain is what its arguments make of 25 messages at most, an age of four hours,
/// no oracle, no JSON, and a dry run; there is none after an error, and none without `--safe`.
pub proof fn a_plan_starts_from_its_defaults(argv: Seq<Seq<char>>, plan: DrainPlan, safe: bool)
    ensures
        comes_to(Seq::empty(), plan, safe) == (plan, safe, None::<Seq<char>>),
        ({
            let start = DrainPlan {
                oracle: None,
                json: false,
                dry_run: true,
                max: 25,
                older_than_seconds: 14400,
            };
            let end = comes_to(argv, start, false);
            drain_plan(argv) == match end.2 {
                Some(error) => Err::<DrainPlan, Seq<char>>(error),
                None => if end.1 {
                    Ok::<DrainPlan, Seq<char>>(end.0)
                } else {
                    Err::<DrainPlan, Seq<char>>(
                        "usage: maw inbox drain [oracle-name] --safe [--max N] [--older-than-hours H] [--json] [--dry-run]"@,
                    )
                },
            }
        }),
{
}

/// Each switch sets its own option and nothing else, whatever arguments follow.
pub proof fn switches_are_heard(rest: Seq<Seq<char>>, plan: DrainPlan, safe: bool)
    ensures
        comes_to(seq!["--safe"@] + rest, plan, safe) == comes_to(rest, plan, true),
        comes_to(seq!["--json"@] + rest, plan, safe) == comes_to(
            rest,
            DrainPlan { json: true, ..plan },
            safe,
        ),
        comes_to(seq!["--dry-run"@] + rest, plan, safe) == comes_to(
            rest,
            DrainPlan { dry_run: true, ..plan },
            safe,
        ),
{
    reveal_strlit("--safe");
    reveal_strlit("--json");
    reveal_strlit("--dry-run");
    assert("--safe"@[2] == 's' && "--json"@[2] == 'j' && "--dry-run"@[2] == 'd');
    let before = DrainReading { plan, safe, index: 0, error: None };
    assert((seq!["--safe"@] + rest)[0] == "--safe"@);
    assert((seq!["--json"@] + rest)[0] == "--json"@);
    assert((seq!["--dry-run"@] + rest)[0] == "--dry-run"@);
    reads_on(seq!["--safe"@], rest, before, DrainReading { safe: true, ..before });
    reads_on(
        seq!["--json"@],
        rest,
        before,
        DrainReading { plan: DrainPlan { json: true, ..plan }, ..before },
    );
    reads_on(
        seq!["--dry-run"@],
        rest,
        before,
        DrainReading { plan: DrainPlan { dry_run: true, ..plan }, ..before },
    );
}

/// A cap is the count that its text gives, in either spelling, whatever arguments follow; a
/// text that gives none ends the reading with the error of the count.
pub proof fn caps_are_heard(value: Seq<char>, rest: Seq<Seq<char>>, plan: DrainPlan, safe: bool)
    requires
        !begins(value, '-'),
    ensures
        count_value(value, "--max"@) matches Ok(count) ==> {
            let after = comes_to(rest, DrainPlan { max: count, ..plan }, safe);
            &&& comes_to(seq!["--max"@, value] + rest, plan, safe) == after
            &&& comes_to(seq!["--max="@ + value] + rest, plan, safe) == after
        },
        count_value(value, "--max"@) matches Err(error) ==> {
            &&& comes_to(seq!["--max"@, value] + rest, plan, safe).2 == Some(error)
            &&& comes_to(seq!["--max="@ + value] + rest, plan, safe).2 == Some(error)
        },
{
    drain_heads(value);
    let before = DrainReading { plan, safe, index: 0, error: None };
    let apart = seq!["--max"@, value];
    let whole = seq!["--max="@ + value];
    assert((apart + rest)[0] == "--max"@ && (apart + rest)[1] == value);
    assert((whole + rest)[0] == "--max="@ + value);
    if let Ok(count) = count_value(value, "--max"@) {
        let after = DrainReading { plan: DrainPlan { max: count, ..plan }, ..before };
        reads_on(apart, rest, before, after);
        reads_on(whole, rest, before, after);
    }
}

/// An age is the seconds that its number of hours is worth, in either spelling, whatever
/// arguments follow; a text that gives none ends the reading with the error of the number.
pub proof fn ages_are_heard(value: Seq<char>, rest: Seq<Seq<char>>, plan: DrainPlan, safe: bool)
    requires
        !begins(value, '-'),
    ensures
        hours_value(value) matches Ok(seconds) ==> {
            let after = comes_to(rest, DrainPlan { older_than_seconds: seconds, ..plan }, safe);
            &&& comes_to(seq!["--older-than-hours"@, value] + rest, plan, safe) == after
            &&& comes_to(seq!["--older-than-hours="@ + value] + rest, plan, safe) == after
        },
        hours_value(value) matches Err(error) ==> {
            &&& comes_to(seq!["--older-than-hours"@, value] + rest, plan, safe).2 == Some(error)
            &&& comes_to(seq!["--older-than-hours="@ + value] + rest, plan, safe).2 == Some(error)
        },
{
    drain_heads(value);
    let before = DrainReading { plan, safe, index: 0, error: None };
    let apart = seq!["--older-than-hours"@, value];
    let whole = seq!["--older-than-hours="@ + value];
    assert((apart + rest)[0] == "--older-than-hours"@ && (apart + rest)[1] == value);
    assert((whole + rest)[0] == "--older-than-hours="@ + value);
    if let Ok(seconds) = hours_value(value) {
        let after = DrainReading {
            plan: DrainPlan { older_than_seconds: seconds, ..plan },
            ..before
        };
        reads_on(apart, rest, before, after);
        reads_on(whole, rest, before, after);
    }
}

/// One argument that begins with no `-` names the oracle, whole; a second one is answered with
/// how a drain is called, and one that may not name an oracle is invalid.
pub proof fn an_oracle_is_heard(value: Seq<char>, rest: Seq<Seq<char>>, plan: DrainPlan, safe: bool)
    requires
        !begins(value, '-'),
    ensures
        target_ok(value) && plan.oracle is None ==> comes_to(seq![value] + rest, plan, safe)
            == comes_to(rest, DrainPlan { oracle: Some(value), ..plan }, safe),
        target_ok(value) && plan.oracle is Some ==> comes_to(seq![value] + rest, plan, safe).2
            == Some(
            "usage: maw inbox drain [oracle-name] --safe [--max N] [--older-than-hours H] [--json] [--dry-run]"@,
        ),
        !target_ok(value) ==> comes_to(seq![value] + rest, plan, safe).2 == Some(
            "inbox: invalid oracle"@,
        ),
{
    reveal_strlit("inbox: invalid ");
    reveal_strlit("oracle");
    reveal_strlit("inbox: invalid oracle");
    assert("inbox: invalid "@ + "oracle"@ =~= "inbox: invalid oracle"@);
    let before = DrainReading { plan, safe, index: 0, error: None };
    let argv = seq![value] + rest;
    assert(argv[0] == value);
    no_flag(value);
    if target_ok(value) && plan.oracle is None {
        reads_on(
            seq![value],
            rest,
            before,
            DrainReading { plan: DrainPlan { oracle: Some(value), ..plan }, ..before },
        );
    }
}

proof fn no_flag(value: Seq<char>)
    requires
        !begins(value, '-'),
    ensures
        value != "--safe"@ && value != "--json"@ && value != "--dry-run"@ && value != "--max"@,
        value != "--older-than-hours"@,
        !"--max="@.is_prefix_of(value),
        !"--older-than-hours="@.is_prefix_of(value),
{
    reveal_strlit("--safe");
    reveal_strlit("--json");
    reveal_strlit("--dry-run");
    reveal_strlit("--max");
    reveal_strlit("--older-than-hours");
    reveal_strlit("--max=");
    reveal_strlit("--older-than-hours=");
    if "--max="@.is_prefix_of(value) {
        assert(value.subrange(0, 6)[0] == '-');
    }
    if "--older-than-hours="@.is_prefix_of(value) {
        assert(value.subrange(0, 19)[0] == '-');
    }
}

/// Any other argument that begins with `-` is unknown, and a flag without its value says so.
pub proof fn other_flags_are_refused(
    arg: Seq<char>,
    rest: Seq<Seq<char>>,
    plan: DrainPlan,
    safe: bool,
)
    requires
        begins(arg, '-'),
    ensures
        arg != "--safe"@ && arg != "--json"@ && arg != "--dry-run"@ && arg != "--max"@ && arg
            != "--older-than-hours"@ && !"--max="@.is_prefix_of(arg)
            && !"--older-than-hours="@.is_prefix_of(arg) ==> comes_to(seq![arg] + rest, plan, safe).2
            == Some("inbox: unknown argument "@ + arg),
        comes_to(seq!["--max"@], plan, safe).2 is Some,
        comes_to(seq!["--older-than-hours"@], plan, safe).2 is Some,
        comes_to(seq!["--max"@, arg] + rest, plan, safe).2 is Some,
        comes_to(seq!["--older-than-hours"@, arg] + rest, plan, safe).2 is Some,
{
    drain_heads(Seq::empty());
    assert((seq![arg] + rest)[0] == arg);
    assert((seq!["--max"@, arg] + rest)[0] == "--max"@ && (seq!["--max"@, arg] + rest)[1] == arg);
    assert((seq!["--older-than-hours"@, arg] + rest)[0] == "--older-than-hours"@);
    assert((seq!["--older-than-hours"@, arg] + rest)[1] == arg);
}

/// Whether an argument gives an age, or says that the next one does.
pub open spec fn gives_age(arg: Seq<char>) -> bool {
    arg == "--older-than-hours"@ || "--older-than-hours="@.is_prefix_of(arg)
}

/// Whether an argument gives a cap, or says that the next one does.
pub open spec fn gives_cap(arg: Seq<char>) -> bool {
    arg == "--max"@ || "--max="@.is_prefix_of(arg)
}

proof fn nothing_given_nothing_changed(argv: Seq<Seq<char>>, reading: DrainReading)
    requires
        0 <= reading.index,
        reading.error is None,
    ensures
        (forall|i: int| reading.index <= i < argv.len() ==> !gives_age(#[trigger] argv[i]))
            ==> drain_reading(argv, reading).plan.older_than_seconds
            == reading.plan.older_than_seconds,
        (forall|i: int| reading.index <= i < argv.len() ==> !gives_cap(#[trigger] argv[i]))
            ==> drain_reading(argv, reading).plan.max == reading.plan.max,
    decreases argv.len() - reading.index,
{
    if reading.index < argv.len() {
        let step = drain_step(argv, reading);
        if step.error is None {
            nothing_given_nothing_changed(argv, DrainReading { index: step.index + 1, ..step });
        }
    }
}

/// A drain whose arguments give no age takes nothing younger than four hours, and one whose
/// arguments give no cap takes 25 messages at most.
pub proof fn defaults_stand_where_nothing_is_given(argv: Seq<Seq<char>>)
    ensures
        drain_plan(argv) matches Ok(plan) ==> {
            &&& (forall|i: int| 0 <= i < argv.len() ==> !gives_age(#[trigger] argv[i]))
                ==> plan.older_than_seconds == 14400
            &&& (forall|i: int| 0 <= i < argv.len() ==> !gives_cap(#[trigger] argv[i]))
                ==> plan.max == 25
        },
{
    nothing_given_nothing_changed(argv, unread_args());
}

/// Where a reading ends without an error, each argument that begins with `-` was read as one of
/// its own, and not as the value of another.
proof fn flags_are_reached(argv: Seq<Seq<char>>, reading: DrainReading, at: int) -> (reached:
    DrainReading)
    requires
        0 <= reading.index <= at < argv.len(),
        reading.error is None,
        begins(argv[at], '-'),
        drain_reading(argv, reading).error is None,
    ensures
        reached.index == at,
        reached.error is None,
        drain_reading(argv, reading) == drain_reading(argv, reached),
    decreases at - reading.index,
{
    if reading.index == at {
        reading
    } else {
        let step = drain_step(argv, reading);
        let next = DrainReading { index: step.index + 1, ..step };
        if next.index > at {
            assert(step.index == at);
            assert(!begins(argv[at], '-'));
        }
        flags_are_reached(argv, next, at)
    }
}

/// Where a plan results, its age is the seconds of the last number of hours that the arguments
/// give, however many those are, behind the flag or written into it, wherever it stands.
pub proof fn the_last_age_stands(
    front: Seq<Seq<char>>,
    value: Seq<char>,
    rest: Seq<Seq<char>>,
    argv: Seq<Seq<char>>,
)
    requires
        !begins(value, '-'),
        forall|i: int| 0 <= i < rest.len() ==> !gives_age(#[trigger] rest[i]),
        argv == front + seq!["--older-than-hours"@, value] + rest || argv == front
            + seq!["--older-than-hours="@ + value] + rest,
    ensures
        drain_plan(argv) matches Ok(plan) ==> hours_value(value) == Ok::<nat, Seq<char>>(
            plan.older_than_seconds,
        ),
{
    if drain_plan(argv) is Ok {
        drain_heads(value);
        reveal_strlit("--older-than-hours");
        reveal_strlit("--older-than-hours=");
        let at = front.len() as int;
        let apart = argv[at] == "--older-than-hours"@;
        assert(argv == front + seq!["--older-than-hours"@, value] + rest ==> apart && argv[at + 1]
            == value);
        assert(argv == front + seq!["--older-than-hours="@ + value] + rest ==> argv[at]
            == "--older-than-hours="@ + value);
        let reached = flags_are_reached(argv, unread_args(), at);
        let step = drain_step(argv, reached);
        assert(step == with_age(reached, value, if apart {
            at + 1
        } else {
            at
        }));
        assert(step.error is None);
        let next = DrainReading { index: step.index + 1, ..step };
        assert forall|i: int| next.index <= i < argv.len() implies !gives_age(#[trigger] argv[i]) by {
            assert(argv[i] == rest[i - next.index]);
        }
        nothing_given_nothing_changed(argv, next);
    }
}

/// As many hours as a number, written as it is printed, make an age of 3600 seconds each.
pub proof fn whole_hours_make_the_age(
    front: Seq<Seq<char>>,
    hours: nat,
    rest: Seq<Seq<char>>,
)
    requires
        hours * 3600 <= u64::MAX,
        forall|i: int| 0 <= i < rest.len() ==> !gives_age(#[trigger] rest[i]),
    ensures
        drain_plan(front + seq!["--older-than-hours"@, decimal(hours)] + rest) matches Ok(plan)
            ==> plan.older_than_seconds == hours * 3600,
        drain_plan(front + seq!["--older-than-hours="@ + decimal(hours)] + rest) matches Ok(plan)
            ==> plan.older_than_seconds == hours * 3600,
{
    printed_hours_are_exact(hours);
    crate::decimal::decimal_reads_back(hours);
    let value = decimal(hours);
    assert(crate::decimal::is_digit(value[0]));
    the_last_age_stands(
        front,
        value,
        rest,
        front + seq!["--older-than-hours"@, value] + rest,
    );
    the_last_age_stands(
        front,
        value,
        rest,
        front + seq!["--older-than-hours="@ + value] + rest,
    );
}

/// Where a plan results, its cap is the last count that the arguments give, however great,
/// behind the flag or written into it, wherever it stands.
pub proof fn the_last_cap_stands(
    front: Seq<Seq<char>>,
    value: Seq<char>,
    rest: Seq<Seq<char>>,
    argv: Seq<Seq<char>>,
)
    requires
        !begins(value, '-'),
        forall|i: int| 0 <= i < rest.len() ==> !gives_cap(#[trigger] rest[i]),
        argv == front + seq!["--max"@, value] + rest || argv == front + seq!["--max="@ + value]
            + rest,
    ensures
        drain_plan(argv) matches Ok(plan) ==> count_value(value, "--max"@) == Ok::<nat, Seq<char>>(
            plan.max,
        ),
{
    if drain_plan(argv) is Ok {
        drain_heads(value);
        reveal_strlit("--max");
        reveal_strlit("--max=");
        let at = front.len() as int;
        let apart = argv[at] == "--max"@;
        assert(argv == front + seq!["--max"@, value] + rest ==> apart && argv[at + 1] == value);
        assert(argv == front + seq!["--max="@ + value] + rest ==> argv[at] == "--max="@ + value);
        let reached = flags_are_reached(argv, unread_args(), at);
        let step = drain_step(argv, reached);
        assert(step == with_max(reached, value, if apart {
            at + 1
        } else {
            at
        }));
        assert(step.error is None);
        let next = DrainReading { index: step.index + 1, ..step };
        assert forall|i: int| next.index <= i < argv.len() implies !gives_cap(#[trigger] argv[i]) by {
            assert(argv[i] == rest[i - next.index]);
        }
        nothing_given_nothing_changed(argv, next);
    }
}

/// A plan becomes one that archives exactly where its report was confirmed and no `--dry-run`
/// stands among the arguments, and changes in nothing else.
pub proof fn only_confirmed_plans_archive(plan: DrainPlan, argv: Seq<Seq<char>>, confirmed: bool)
    ensures
        confirmed_plan(plan, argv, false) == plan,
        (exists|i: int| 0 <= i < argv.len() && #[trigger] argv[i] == "--dry-run"@)
            ==> confirmed_plan(plan, argv, confirmed) == plan,
        (forall|i: int| 0 <= i < argv.len() ==> #[trigger] argv[i] != "--dry-run"@)
            ==> confirmed_plan(plan, argv, true) == (DrainPlan { dry_run: false, ..plan }),
{
}

/// Whether every age that the arguments give, behind the flag or written into it, fits.
pub open spec fn ages_fit(argv: Seq<Seq<char>>) -> bool {
    forall|i: int|
        0 <= i < argv.len() ==> {
            &&& #[trigger] argv[i] == "--older-than-hours"@ && i + 1 < argv.len() ==> hours_fit(
                argv[i + 1],
            )
            &&& "--older-than-hours="@.is_prefix_of(argv[i]) ==> hours_fit(
                without_heads(argv[i], "--older-than-hours="@),
            )
        }
}

/// Arguments fit where every age that they give does.
pub proof fn arguments_fit_where_their_ages_do(argv: Seq<Seq<char>>)
    requires
        ages_fit(argv),
    ensures
        drain_args_fit(argv),
{
    fits_by_ages(argv, unread_args());
}

proof fn fits_by_ages(argv: Seq<Seq<char>>, reading: DrainReading)
    requires
        ages_fit(argv),
        0 <= reading.index,
    ensures
        crate::drain_args::reading_fits(argv, reading),
    decreases argv.len() - reading.index,
{
    if reading.index < argv.len() && reading.error is None {
        let step = drain_step(argv, reading);
        assert(crate::drain_args::step_fits(argv, reading.index)) by {
            assert(argv[reading.index] == argv[reading.index]);
        }
        if step.error is None {
            fits_by_ages(argv, DrainReading { index: step.index + 1, ..step });
        }
    }
}

} // verus!
