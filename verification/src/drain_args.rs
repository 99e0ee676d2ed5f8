//! The arguments of a drain.
//!
//! A drain is a dry run: it reports what it would take. No argument makes it archive; the
//! caller does, by confirming what was reported, unless `--dry-run` asks for the report alone.
use vstd::prelude::*;

use crate::args::{
    count_value, flag_value, guarded, hours_fit, hours_value, inbox_hours_fit,
    inbox_parse_hours_seconds, inbox_parse_usize, inbox_required_value, inbox_validate_target_arg,
    target_ok,
};
use crate::text::{
    begins, begins_with, outcome, same_text, starts_with_text, strip_heads, without_heads, words,
};

verus! {

/// How many messages a drain takes where its caller gives no cap.
pub const INBOX_SAFE_DRAIN_DEFAULT_MAX: usize = 25;

/// How old a message has to be where the drain's caller gives no age, in seconds.
pub const INBOX_SAFE_DRAIN_DEFAULT_MIN_AGE_SECONDS: u64 = 4 * 60 * 60;

/// What a drain is asked to do.
#[derive(Debug, Clone, PartialEq, Eq)]
pub struct InboxDrainOptions {
    pub oracle: Option<String>,
    pub json: bool,
    pub dry_run: bool,
    pub max: usize,
    pub older_than_seconds: u64,
}

/// The same, with texts as sequences of characters and numbers without bounds.
#[verifier::ext_equal]
pub struct DrainPlan {
    pub oracle: Option<Seq<char>>,
    pub json: bool,
    pub dry_run: bool,
    pub max: nat,
    pub older_than_seconds: nat,
}

impl View for InboxDrainOptions {
    type V = DrainPlan;

    open spec fn view(&self) -> DrainPlan {
        DrainPlan {
            oracle: match self.oracle {
                Some(oracle) => Some(oracle@),
                None => None,
            },
            json: self.json,
            dry_run: self.dry_run,
            max: self.max as nat,
            older_than_seconds: self.older_than_seconds as nat,
        }
    }
}

/// What a drain does where no argument says otherwise: it takes nothing, and reports what
/// it would take.
pub open spec fn default_plan() -> DrainPlan {
    DrainPlan {
        oracle: None,
        json: false,
        dry_run: true,
        max: INBOX_SAFE_DRAIN_DEFAULT_MAX as nat,
        older_than_seconds: INBOX_SAFE_DRAIN_DEFAULT_MIN_AGE_SECONDS as nat,
    }
}

/// How a drain is called.
pub open spec fn drain_usage() -> Seq<char> {
    "usage: maw inbox drain [oracle-name] --safe [--max N] [--older-than-hours H] [--json] [--dry-run]"@
}

/// Where the reading of a drain's arguments stands: the plan so far, whether `--safe` was
/// among them, the last argument read, and the error that ended it, if one did.
#[verifier::ext_equal]
pub struct DrainReading {
    pub plan: DrainPlan,
    pub safe: bool,
    pub index: int,
    pub error: Option<Seq<char>>,
}

/// The reading with a cap set, if the text gives a count.
pub open spec fn with_max(reading: DrainReading, value: Seq<char>, index: int) -> DrainReading {
    match count_value(value, "--max"@) {
        Ok(count) => DrainReading {
            plan: DrainPlan { max: count, ..reading.plan },
            index,
            ..reading
        },
        Err(error) => DrainReading { error: Some(error), ..reading },
    }
}

/// The reading with an age set, if the text gives a number of hours.
pub open spec fn with_age(reading: DrainReading, value: Seq<char>, index: int) -> DrainReading {
    match hours_value(value) {
        Ok(seconds) => DrainReading {
            plan: DrainPlan { older_than_seconds: seconds, ..reading.plan },
            index,
            ..reading
        },
        Err(error) => DrainReading { error: Some(error), ..reading },
    }
}

/// The reading with an oracle set, if the text may name one. A second one is an error.
pub open spec fn with_oracle(reading: DrainReading, value: Seq<char>) -> DrainReading {
    match guarded(target_ok(value), "oracle"@) {
        Ok(_) => DrainReading {
            plan: DrainPlan { oracle: Some(value), ..reading.plan },
            error: if reading.plan.oracle is Some {
                Some(drain_usage())
            } else {
                None
            },
            ..reading
        },
        Err(error) => DrainReading { error: Some(error), ..reading },
    }
}

/// What the argument at the reading's index makes of it.
pub open spec fn drain_step(argv: Seq<Seq<char>>, reading: DrainReading) -> DrainReading {
    let index = reading.index;
    let arg = argv[index];
    if arg == "--safe"@ {
        DrainReading { safe: true, ..reading }
    } else if arg == "--json"@ {
        DrainReading { plan: DrainPlan { json: true, ..reading.plan }, ..reading }
    } else if arg == "--dry-run"@ {
        DrainReading { plan: DrainPlan { dry_run: true, ..reading.plan }, ..reading }
    } else if arg == "--max"@ {
        match flag_value(argv, index, "--max"@) {
            Ok(value) => with_max(reading, value, index + 1),
            Err(error) => DrainReading { error: Some(error), ..reading },
        }
    } else if arg == "--older-than-hours"@ {
        match flag_value(argv, index, "--older-than-hours"@) {
            Ok(value) => with_age(reading, value, index + 1),
            Err(error) => DrainReading { error: Some(error), ..reading },
        }
    } else if "--max="@.is_prefix_of(arg) {
        with_max(reading, without_heads(arg, "--max="@), index)
    } else if "--older-than-hours="@.is_prefix_of(arg) {
        with_age(reading, without_heads(arg, "--older-than-hours="@), index)
    } else if begins(arg, '-') {
        DrainReading { error: Some("inbox: unknown argument "@ + arg), ..reading }
    } else {
        with_oracle(reading, arg)
    }
}

/// Whether the age that the argument at `index` gives, if it gives one, fits into 64 bits.
pub open spec fn step_fits(argv: Seq<Seq<char>>, index: int) -> bool {
    let arg = argv[index];
    if arg == "--older-than-hours"@ {
        flag_value(argv, index, "--older-than-hours"@) matches Ok(value) ==> hours_fit(value)
    } else if "--older-than-hours="@.is_prefix_of(arg) {
        hours_fit(without_heads(arg, "--older-than-hours="@))
    } else {
        true
    }
}

/// The reading of all arguments from the reading's index on. The first error ends it.
pub open spec fn drain_reading(argv: Seq<Seq<char>>, reading: DrainReading) -> DrainReading
    decreases argv.len() - reading.index,
{
    if reading.index < 0 || reading.index >= argv.len() || reading.error is Some {
        reading
    } else {
        let read = drain_step(argv, reading);
        if read.error is Some {
            read
        } else {
            drain_reading(argv, DrainReading { index: read.index + 1, ..read })
        }
    }
}

/// Whether all ages fit into 64 bits that the reading comes to.
pub open spec fn reading_fits(argv: Seq<Seq<char>>, reading: DrainReading) -> bool
    decreases argv.len() - reading.index,
{
    if reading.index < 0 || reading.index >= argv.len() || reading.error is Some {
        true
    } else {
        let read = drain_step(argv, reading);
        step_fits(argv, reading.index) && (read.error is Some || reading_fits(
            argv,
            DrainReading { index: read.index + 1, ..read },
        ))
    }
}

/// The reading before the first argument.
pub open spec fn unread_args() -> DrainReading {
    DrainReading { plan: default_plan(), safe: false, index: 0, error: None }
}

/// Whether a drain's arguments give no age that 64 bits cannot hold.
pub open spec fn drain_args_fit(argv: Seq<Seq<char>>) -> bool {
    reading_fits(argv, unread_args())
}

/// The plan that a drain's arguments give. Without `--safe` there is none.
pub open spec fn drain_plan(argv: Seq<Seq<char>>) -> Result<DrainPlan, Seq<char>> {
    let read = drain_reading(argv, unread_args());
    match read.error {
        Some(error) => Err(error),
        None => if read.safe {
            Ok(read.plan)
        } else {
            Err(drain_usage())
        },
    }
}

/// The switches that a reading has come to are those it had before and those among the
/// arguments that it still had to read: no value that a flag takes can be one.
proof fn switches_add_up(argv: Seq<Seq<char>>, reading: DrainReading)
    requires
        0 <= reading.index,
        reading.error is None,
        drain_reading(argv, reading).error is None,
    ensures
        ({
            let read = drain_reading(argv, reading);
            let rest = argv.skip(reading.index);
            reading.index <= argv.len() ==> {
                &&& read.safe == (reading.safe || rest.contains("--safe"@))
                &&& read.plan.json == (reading.plan.json || rest.contains("--json"@))
                &&& read.plan.dry_run == (reading.plan.dry_run || rest.contains("--dry-run"@))
            }
        }),
    decreases argv.len() - reading.index,
{
    if reading.index < argv.len() {
        reveal_strlit("--safe");
        reveal_strlit("--json");
        reveal_strlit("--dry-run");
        reveal_strlit("--max");
        reveal_strlit("--older-than-hours");
        reveal_strlit("--max=");
        reveal_strlit("--older-than-hours=");
        let index = reading.index;
        let step = drain_step(argv, reading);
        let next = DrainReading { index: step.index + 1, ..step };
        switches_add_up(argv, next);
        let rest = argv.skip(index);
        let after = argv.skip(next.index);
        let arg = argv[index];
        assert("--safe"@[2] == 's' && "--json"@[2] == 'j' && "--dry-run"@[2] == 'd');
        if "--max="@.is_prefix_of(arg) {
            assert(arg.subrange(0, 6)[2] == 'm');
        }
        if "--older-than-hours="@.is_prefix_of(arg) {
            assert(arg.subrange(0, 19)[2] == 'o');
        }
        assert(begins("--safe"@, '-') && begins("--json"@, '-') && begins("--dry-run"@, '-'));
        assert forall|word: Seq<char>| begins(word, '-') implies (#[trigger] rest.contains(word) <==> (
        arg == word || after.contains(word))) by {
            if rest.contains(word) && arg != word {
                let at = rest.index_of(word);
                assert(argv[index + at] == word);
                assert(index + at >= next.index);
                assert(after[index + at - next.index] == word);
            }
            if after.contains(word) {
                let at = after.index_of(word);
                assert(rest[next.index - index + at] == word);
            }
            if arg == word {
                assert(rest[0] == word);
            }
        }
    } else if reading.index == argv.len() {
        assert(argv.skip(reading.index).len() == 0);
    }
}

/// A drain is planned only where `--safe` stands among its arguments, and answers in JSON
/// exactly where `--json` does. Whatever they are, it is planned as a dry run.
pub proof fn switches_are_what_was_asked(argv: Seq<Seq<char>>)
    ensures
        drain_plan(argv) matches Ok(plan) ==> {
            &&& argv.contains("--safe"@)
            &&& plan.json == argv.contains("--json"@)
            &&& plan.dry_run
        },
{
    if drain_plan(argv) is Ok {
        switches_add_up(argv, unread_args());
        assert(argv.skip(0) =~= argv);
    }
}

/// What stands before the arguments that are left does not matter to them.
pub(crate) proof fn drain_reading_looks_ahead(
    front: Seq<Seq<char>>,
    rest: Seq<Seq<char>>,
    reading: DrainReading,
)
    requires
        0 <= reading.index,
    ensures
        ({
            let ahead = drain_reading(
                front + rest,
                DrainReading { index: front.len() + reading.index, ..reading },
            );
            ahead == DrainReading {
                index: front.len() + drain_reading(rest, reading).index,
                ..drain_reading(rest, reading)
            }
        }),
        reading_fits(front + rest, DrainReading { index: front.len() + reading.index, ..reading })
            == reading_fits(rest, reading),
    decreases rest.len() - reading.index,
{
    let index = reading.index;
    if index < rest.len() && reading.error is None {
        let all = front + rest;
        let moved = DrainReading { index: front.len() + index, ..reading };
        assert(all[front.len() + index] == rest[index]);
        if index + 1 < rest.len() {
            assert(all[front.len() + index + 1] == rest[index + 1]);
        }
        let step = drain_step(rest, reading);
        let moved_step = drain_step(all, moved);
        assert(moved_step == DrainReading { index: front.len() + step.index, ..step });
        if step.error is None {
            drain_reading_looks_ahead(front, rest, DrainReading { index: step.index + 1, ..step });
        }
    }
}

pub(crate) proof fn drain_heads(value: Seq<char>)
    requires
        !begins(value, '-'),
    ensures
        ({
            let max = "--max="@ + value;
            let age = "--older-than-hours="@ + value;
            &&& "--max="@.is_prefix_of(max)
            &&& without_heads(max, "--max="@) == value
            &&& "--older-than-hours="@.is_prefix_of(age)
            &&& !"--max="@.is_prefix_of(age)
            &&& without_heads(age, "--older-than-hours="@) == value
            &&& max != "--safe"@ && max != "--json"@ && max != "--dry-run"@ && max != "--max"@
            &&& max != "--older-than-hours"@
            &&& age != "--safe"@ && age != "--json"@ && age != "--dry-run"@ && age != "--max"@
            &&& age != "--older-than-hours"@
        }),
        "--max"@ != "--safe"@ && "--max"@ != "--json"@ && "--max"@ != "--dry-run"@,
        "--older-than-hours"@ != "--safe"@ && "--older-than-hours"@ != "--json"@,
        "--older-than-hours"@ != "--dry-run"@ && "--older-than-hours"@ != "--max"@,
{
    reveal_strlit("--safe");
    reveal_strlit("--json");
    reveal_strlit("--dry-run");
    reveal_strlit("--max");
    reveal_strlit("--older-than-hours");
    reveal_strlit("--max=");
    reveal_strlit("--older-than-hours=");
    reveal_with_fuel(without_heads, 2);
    let max = "--max="@ + value;
    let age = "--older-than-hours="@ + value;
    assert(max.subrange(0, 6) =~= "--max="@);
    assert(max.skip(6) =~= value);
    assert(age.subrange(0, 19) =~= "--older-than-hours="@);
    assert(age.skip(19) =~= value);
    assert(age.subrange(0, 6)[2] == 'o');
    if "--max="@.is_prefix_of(value) {
        assert(value.subrange(0, 6)[0] == '-');
    }
    if "--older-than-hours="@.is_prefix_of(value) {
        assert(value.subrange(0, 19)[0] == '-');
    }
    assert("--safe"@[2] == 's' && "--json"@[2] == 'j' && "--dry-run"@[2] == 'd' && "--max"@[2]
        == 'm' && "--older-than-hours"@[2] == 'o');
    assert(max[2] == 'm' && age[2] == 'o');
    assert(max.len() >= 6 && age.len() >= 19);
}

proof fn same_step_same_plan(
    apart: Seq<Seq<char>>,
    whole: Seq<Seq<char>>,
    rest: Seq<Seq<char>>,
    step: DrainReading,
)
    requires
        apart.len() == 2,
        whole.len() == 1,
        drain_step(apart + rest, unread_args()) == (DrainReading {
            index: if step.error is Some {
                0
            } else {
                1
            },
            ..step
        }),
        drain_step(whole + rest, unread_args()) == (DrainReading { index: 0, ..step }),
    ensures
        drain_plan(apart + rest) == drain_plan(whole + rest),
{
    if step.error is None {
        let next = DrainReading { index: 0, ..step };
        drain_reading_looks_ahead(apart, rest, next);
        drain_reading_looks_ahead(whole, rest, next);
    }
}

/// A cap given behind its flag and one written into the flag are the same, whatever
/// arguments follow, as long as the cap does not begin with `-`.
pub proof fn max_spellings_agree(value: Seq<char>, rest: Seq<Seq<char>>)
    requires
        !begins(value, '-'),
    ensures
        drain_plan(seq!["--max"@, value] + rest) == drain_plan(seq!["--max="@ + value] + rest),
{
    let apart = seq!["--max"@, value];
    let whole = seq!["--max="@ + value];
    drain_heads(value);
    assert((apart + rest)[0] == "--max"@ && (apart + rest)[1] == value);
    assert((whole + rest)[0] == "--max="@ + value);
    same_step_same_plan(apart, whole, rest, with_max(unread_args(), value, 0));
}

/// An age given behind its flag and one written into the flag are the same, whatever
/// arguments follow, as long as the age does not begin with `-`.
pub proof fn age_spellings_agree(value: Seq<char>, rest: Seq<Seq<char>>)
    requires
        !begins(value, '-'),
    ensures
        drain_plan(seq!["--older-than-hours"@, value] + rest) == drain_plan(
            seq!["--older-than-hours="@ + value] + rest,
        ),
{
    let apart = seq!["--older-than-hours"@, value];
    let whole = seq!["--older-than-hours="@ + value];
    drain_heads(value);
    assert((apart + rest)[0] == "--older-than-hours"@ && (apart + rest)[1] == value);
    assert((whole + rest)[0] == "--older-than-hours="@ + value);
    same_step_same_plan(apart, whole, rest, with_age(unread_args(), value, 0));
}

/// Whether an argument is a flag that takes the one behind it as its value.
pub open spec fn takes_value(arg: Seq<char>) -> bool {
    arg == "--max"@ || arg == "--older-than-hours"@
}

/// Whether the arguments name no oracle: each begins with `-`, or is the value of the flag
/// before it.
pub open spec fn names_no_oracle(argv: Seq<Seq<char>>) -> bool {
    forall|i: int|
        0 <= i < argv.len() ==> begins(#[trigger] argv[i], '-') || (i > 0 && takes_value(
            argv[i - 1],
        ))
}

/// The reading as it is where an oracle was named before.
pub open spec fn after_oracle(reading: DrainReading, oracle: Seq<char>) -> DrainReading {
    DrainReading { plan: DrainPlan { oracle: Some(oracle), ..reading.plan }, ..reading }
}

/// Arguments that name no oracle are read the same whether or not one was named before.
proof fn oracle_stays(argv: Seq<Seq<char>>, reading: DrainReading, oracle: Seq<char>)
    requires
        names_no_oracle(argv),
        0 <= reading.index,
        0 < reading.index <= argv.len() ==> !takes_value(argv[reading.index - 1]),
        reading.error is None,
        reading.plan.oracle is None,
    ensures
        drain_reading(argv, after_oracle(reading, oracle)) == after_oracle(
            drain_reading(argv, reading),
            oracle,
        ),
        drain_reading(argv, reading).plan.oracle is None,
        reading_fits(argv, after_oracle(reading, oracle)) == reading_fits(argv, reading),
    decreases argv.len() - reading.index,
{
    if reading.index < argv.len() {
        let index = reading.index;
        assert(begins(argv[index], '-'));
        let step = drain_step(argv, reading);
        let other = drain_step(argv, after_oracle(reading, oracle));
        assert(other == after_oracle(step, oracle));
        if step.error is None {
            flags_stand_apart(argv[index]);
            if step.index == index + 1 {
                reveal_strlit("--max");
                reveal_strlit("--older-than-hours");
                assert(!begins(argv[index + 1], '-'));
            }
            oracle_stays(argv, DrainReading { index: step.index + 1, ..step }, oracle);
        }
    }
}

/// A flag that takes a value is none of the others.
proof fn flags_stand_apart(arg: Seq<char>)
    ensures
        takes_value(arg) ==> arg != "--safe"@ && arg != "--json"@ && arg != "--dry-run"@,
{
    drain_heads(Seq::empty());
}

proof fn oracle_is_read(argv: Seq<Seq<char>>, oracle: Seq<char>)
    requires
        target_ok(oracle),
    ensures
        drain_step(seq![oracle] + argv, unread_args()) == after_oracle(unread_args(), oracle),
        step_fits(seq![oracle] + argv, 0),
{
    reveal_strlit("--safe");
    reveal_strlit("--json");
    reveal_strlit("--dry-run");
    reveal_strlit("--max");
    reveal_strlit("--older-than-hours");
    reveal_strlit("--max=");
    reveal_strlit("--older-than-hours=");
    assert((seq![oracle] + argv)[0] == oracle);
    if "--max="@.is_prefix_of(oracle) {
        assert(oracle.subrange(0, 6)[0] == '-');
    }
    if "--older-than-hours="@.is_prefix_of(oracle) {
        assert(oracle.subrange(0, 19)[0] == '-');
    }
}

/// An oracle named before arguments that name none adds itself to the plan, and nothing else;
/// and the ages that the arguments give fit as they did.
pub proof fn an_oracle_changes_nothing_else(argv: Seq<Seq<char>>, oracle: Seq<char>)
    requires
        target_ok(oracle),
        names_no_oracle(argv),
    ensures
        drain_plan(seq![oracle] + argv) == match drain_plan(argv) {
            Ok(plan) => Ok::<DrainPlan, Seq<char>>(DrainPlan { oracle: Some(oracle), ..plan }),
            Err(error) => Err::<DrainPlan, Seq<char>>(error),
        },
        drain_plan(argv) matches Ok(plan) ==> plan.oracle is None,
        drain_args_fit(seq![oracle] + argv) == drain_args_fit(argv),
{
    let named = after_oracle(unread_args(), oracle);
    oracle_is_read(argv, oracle);
    drain_reading_looks_ahead(seq![oracle], argv, named);
    oracle_stays(argv, unread_args(), oracle);
}

/// Sets the oracle that a drain is for.
pub fn inbox_set_drain_oracle(options: &mut InboxDrainOptions, value: &str) -> (result: Result<
    (),
    String,
>)
    ensures
        ({
            let before = DrainReading { plan: old(options)@, safe: false, index: 0, error: None };
            let after = with_oracle(before, value@);
            &&& final(options)@ == after.plan
            &&& match result {
                Ok(_) => after.error is None,
                Err(error) => after.error == Some(error@),
            }
        }),
{
    inbox_validate_target_arg(value, "oracle")?;
    let again = options.oracle.is_some();
    options.oracle = Some(value.to_owned());
    if again {
        return Err(
            "usage: maw inbox drain [oracle-name] --safe [--max N] [--older-than-hours H] [--json] [--dry-run]".to_owned(),
        );
    }
    Ok(())
}

/// Reads the argument at `index`, and with it the value that stands behind it.
pub fn inbox_parse_drain_arg(
    argv: &[String],
    index: &mut usize,
    options: &mut InboxDrainOptions,
    safe: &mut bool,
) -> (result: Result<(), String>)
    requires
        *old(index) < argv@.len(),
        step_fits(words(argv@), *old(index) as int),
    ensures
        ({
            let before = DrainReading {
                plan: old(options)@,
                safe: *old(safe),
                index: *old(index) as int,
                error: None,
            };
            let after = drain_step(words(argv@), before);
            &&& final(options)@ == after.plan
            &&& *final(safe) == after.safe
            &&& *final(index) == after.index
            &&& match result {
                Ok(_) => after.error is None,
                Err(error) => after.error == Some(error@),
            }
        }),
        result is Ok ==> *final(index) < argv@.len(),
{
    proof {
        reveal_strlit("--max=");
        reveal_strlit("--older-than-hours=");
    }
    let arg = argv[*index].as_str();
    assert(arg@ == words(argv@)[*index as int]);
    if same_text(arg, "--safe") {
        *safe = true;
    } else if same_text(arg, "--json") {
        options.json = true;
    } else if same_text(arg, "--dry-run") {
        options.dry_run = true;
    } else if same_text(arg, "--max") {
        options.max = inbox_parse_usize(inbox_required_value(argv, *index, "--max")?, "--max")?;
        *index += 1;
    } else if same_text(arg, "--older-than-hours") {
        let value = inbox_required_value(argv, *index, "--older-than-hours")?;
        options.older_than_seconds = inbox_parse_hours_seconds(value)?;
        *index += 1;
    } else if starts_with_text(arg, "--max=") {
        options.max = inbox_parse_usize(strip_heads(arg, "--max="), "--max")?;
    } else if starts_with_text(arg, "--older-than-hours=") {
        options.older_than_seconds = inbox_parse_hours_seconds(
            strip_heads(arg, "--older-than-hours="),
        )?;
    } else if begins_with(arg, '-') {
        return Err("inbox: unknown argument ".to_owned().concat(arg));
    } else {
        inbox_set_drain_oracle(options, arg)?;
    }
    Ok(())
}

fn default_options() -> (options: InboxDrainOptions)
    ensures
        options@ == default_plan(),
{
    InboxDrainOptions {
        oracle: None,
        json: false,
        dry_run: true,
        max: INBOX_SAFE_DRAIN_DEFAULT_MAX,
        older_than_seconds: INBOX_SAFE_DRAIN_DEFAULT_MIN_AGE_SECONDS,
    }
}

fn arg_fits(argv: &[String], index: usize) -> (fits: bool)
    requires
        index < argv@.len(),
    ensures
        fits == step_fits(words(argv@), index as int),
{
    proof {
        reveal_strlit("--older-than-hours=");
    }
    let arg = argv[index].as_str();
    assert(arg@ == words(argv@)[index as int]);
    if same_text(arg, "--older-than-hours") {
        match inbox_required_value(argv, index, "--older-than-hours") {
            Ok(value) => inbox_hours_fit(value),
            Err(_) => true,
        }
    } else if starts_with_text(arg, "--older-than-hours=") {
        inbox_hours_fit(strip_heads(arg, "--older-than-hours="))
    } else {
        true
    }
}

/// Whether a drain's arguments give no age that 64 bits cannot hold.
pub fn inbox_drain_args_fit(argv: &[String]) -> (fit: bool)
    ensures
        fit == drain_args_fit(words(argv@)),
{
    let mut options = default_options();
    let mut safe = false;
    let mut index: usize = 0;
    while index < argv.len()
        invariant
            index <= argv.len(),
            drain_args_fit(words(argv@)) == reading_fits(
                words(argv@),
                DrainReading { plan: options@, safe, index: index as int, error: None },
            ),
        decreases argv.len() - index,
    {
        if !arg_fits(argv, index) {
            return false;
        }
        if inbox_parse_drain_arg(argv, &mut index, &mut options, &mut safe).is_err() {
            return true;
        }
        index += 1;
    }
    true
}

/// The options that a drain's arguments give. A drain asks for `--safe`.
pub fn inbox_parse_drain_args(argv: &[String]) -> (result: Result<InboxDrainOptions, String>)
    requires
        drain_args_fit(words(argv@)),
    ensures
        outcome(result) == drain_plan(words(argv@)),
{
    let mut options = default_options();
    let mut safe = false;
    let mut index: usize = 0;
    while index < argv.len()
        invariant
            index <= argv.len(),
            reading_fits(
                words(argv@),
                DrainReading { plan: options@, safe, index: index as int, error: None },
            ),
            drain_reading(words(argv@), unread_args()) == drain_reading(
                words(argv@),
                DrainReading { plan: options@, safe, index: index as int, error: None },
            ),
        decreases argv.len() - index,
    {
        inbox_parse_drain_arg(argv, &mut index, &mut options, &mut safe)?;
        index += 1;
    }
    if !safe {
        return Err(
            "usage: maw inbox drain [oracle-name] --safe [--max N] [--older-than-hours H] [--json] [--dry-run]".to_owned(),
        );
    }
    Ok(options)
}

/// Whether the arguments ask for the report alone.
pub open spec fn previews_only(argv: Seq<Seq<char>>) -> bool {
    argv.contains("--dry-run"@)
}

/// What becomes of a plan whose report the caller has confirmed or not: it archives where that
/// was confirmed and the arguments do not ask for the report alone, and else stays as it is.
pub open spec fn confirmed_plan(
    plan: DrainPlan,
    argv: Seq<Seq<char>>,
    confirmed: bool,
) -> DrainPlan {
    if confirmed && !previews_only(argv) {
        DrainPlan { dry_run: false, ..plan }
    } else {
        plan
    }
}

/// Whether the arguments ask for the report alone.
pub fn inbox_previews_only(argv: &[String]) -> (only: bool)
    ensures
        only == previews_only(words(argv@)),
{
    let mut index: usize = 0;
    while index < argv.len()
        invariant
            index <= argv.len(),
            forall|i: int| 0 <= i < index ==> #[trigger] words(argv@)[i] != "--dry-run"@,
        decreases argv.len() - index,
    {
        assert(argv@[index as int]@ == words(argv@)[index as int]);
        if same_text(argv[index].as_str(), "--dry-run") {
            return true;
        }
        index += 1;
    }
    false
}

/// The options of a drain once its report was confirmed or not.
pub fn inbox_confirm_drain(options: InboxDrainOptions, argv: &[String], confirmed: bool) -> (after:
    InboxDrainOptions)
    ensures
        after@ == confirmed_plan(options@, words(argv@), confirmed),
{
    if confirmed && !inbox_previews_only(argv) {
        InboxDrainOptions { dry_run: false, ..options }
    } else {
        options
    }
}

} // verus!
