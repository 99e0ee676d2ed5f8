//! The guards that every argument passes, and the values that flags take.
use vstd::prelude::*;

use crate::decimal::{
    all_digits, decimal, decimal_reads_back, digits_bound, digits_from, digits_number, digits_value,
    is_digit, power_of_ten, unsigned, unsigned_number,
};
use crate::text::{
    begins, begins_with, chars_of, cut_once, has_char, has_part, has_text, occurs_at, outcome,
    same_text, split_at_mark, trim, trimmed, words,
};

verus! {

/// Whether a character is an ASCII control character.
pub open spec fn is_control(c: char) -> bool {
    c < '\u{20}' || c == '\u{7f}'
}

/// Whether no character of the text is an ASCII control character.
pub open spec fn plain(text: Seq<char>) -> bool {
    forall|i: int| 0 <= i < text.len() ==> !is_control(#[trigger] text[i])
}

/// Whether a text may name a message: not empty, no flag, no way into another directory,
/// and no control character.
pub open spec fn lookup_ok(value: Seq<char>) -> bool {
    &&& value.len() > 0
    &&& !begins(value, '-')
    &&& !value.contains('/')
    &&& !has_part(value, ".."@)
    &&& plain(value)
}

/// Whether a text may name a peer: not blank, nothing around it, no flag, no path, and no
/// control character.
pub open spec fn target_ok(value: Seq<char>) -> bool {
    &&& trim(value).len() > 0
    &&& trim(value) == value
    &&& !begins(value, '-')
    &&& !value.contains('/')
    &&& plain(value)
}

/// What a guard answers: nothing where the value passes, else which value is invalid.
pub open spec fn guarded(passes: bool, label: Seq<char>) -> Result<(), Seq<char>> {
    if passes {
        Ok(())
    } else {
        Err("inbox: invalid "@ + label)
    }
}

/// The value that stands behind a flag.
pub open spec fn flag_value(argv: Seq<Seq<char>>, index: int, flag: Seq<char>) -> Result<
    Seq<char>,
    Seq<char>,
> {
    if index + 1 >= argv.len() {
        Err("inbox: missing "@ + flag + " value"@)
    } else if begins(argv[index + 1], '-') {
        Err("inbox: "@ + flag + " value must not start with '-'"@)
    } else {
        Ok(argv[index + 1])
    }
}

/// The count that a flag's value gives.
pub open spec fn count_value(value: Seq<char>, flag: Seq<char>) -> Result<nat, Seq<char>> {
    match unsigned(value) {
        Some(count) if count <= usize::MAX => Ok(count),
        _ => Err(flag + " must be a non-negative integer"@),
    }
}

/// The part of an hour that stands behind the point, in whole seconds. Six digits count.
pub open spec fn fraction_seconds(digits: Seq<char>) -> nat {
    let kept = if digits.len() < 6 {
        digits.len()
    } else {
        6
    };
    digits_value(digits.take(kept as int)) * 3600 / power_of_ten(kept)
}

/// What stands before and behind the point of a number of hours.
pub open spec fn hour_parts(value: Seq<char>) -> (Seq<char>, Seq<char>) {
    match cut_once(value, "."@) {
        Some(parts) => parts,
        None => (value, Seq::empty()),
    }
}

/// The seconds that a number of hours gives.
pub open spec fn hours_value(value: Seq<char>) -> Result<nat, Seq<char>> {
    let (whole, fraction) = hour_parts(value);
    match unsigned(whole) {
        Some(hours) if hours <= u64::MAX => if hours * 3600 > u64::MAX {
            Err("--older-than-hours is too large"@)
        } else if all_digits(fraction) {
            Ok(hours * 3600 + fraction_seconds(fraction))
        } else {
            Err("--older-than-hours must be a non-negative number"@)
        },
        _ => Err("--older-than-hours must be a non-negative number"@),
    }
}

/// Whether the seconds that a number of hours gives fit into 64 bits. They do not for the
/// few values whose whole hours alone come within an hour of the limit.
pub open spec fn hours_fit(value: Seq<char>) -> bool {
    hours_value(value) matches Ok(seconds) ==> seconds <= u64::MAX
}

proof fn fraction_is_small(digits: Seq<char>)
    ensures
        fraction_seconds(digits) < 3600,
        digits.len() == 0 ==> fraction_seconds(digits) == 0,
{
    let kept = if digits.len() < 6 {
        digits.len()
    } else {
        6
    };
    let value = digits_value(digits.take(kept as int));
    let scale = power_of_ten(kept);
    digits_bound(digits.take(kept as int));
    assert(value * 3600 / scale < 3600) by (nonlinear_arith)
        requires
            0 <= value < scale,
    ;
    if digits.len() == 0 {
        assert(power_of_ten(0) == 1);
    }
}

/// A number of hours without a point is worth 3600 seconds each.
pub proof fn whole_hours_are_exact(value: Seq<char>)
    requires
        cut_once(value, "."@) is None,
    ensures
        hours_value(value) matches Ok(seconds) ==> unsigned(value) matches Some(hours) && seconds
            == hours * 3600,
        unsigned(value) matches Some(hours) ==> (hours * 3600 <= u64::MAX ==> hours_value(value)
            == Ok::<nat, Seq<char>>(hours * 3600)),
{
    fraction_is_small(Seq::empty());
}

/// What stands behind the point adds less than one hour, so the number of hours is never
/// rounded up.
pub proof fn fraction_adds_less_than_an_hour(value: Seq<char>)
    ensures
        hours_value(value) matches Ok(seconds) ==> unsigned(hour_parts(value).0) matches Some(hours)
            && hours * 3600 <= seconds < (hours + 1) * 3600,
{
    fraction_is_small(hour_parts(value).1);
}

/// A number as it is printed, such as that of a row, may name a message, and gives the same
/// number back where a count is asked for.
pub proof fn printed_numbers_are_accepted(number: nat, flag: Seq<char>)
    ensures
        lookup_ok(decimal(number)),
        number <= usize::MAX ==> count_value(decimal(number), flag) == Ok::<nat, Seq<char>>(number),
{
    decimal_reads_back(number);
    let digits = decimal(number);
    assert(is_digit(digits[0]));
    if digits.contains('/') {
        assert(is_digit(digits[digits.index_of('/')]));
    }
    if has_part(digits, ".."@) {
        reveal_strlit("..");
        let at = choose|at: int| occurs_at(digits, ".."@, at);
        assert(digits.subrange(at, at + 2)[0] == '.');
        assert(is_digit(digits[at]));
    }
    assert forall|i: int| 0 <= i < digits.len() implies !is_control(#[trigger] digits[i]) by {
        assert(is_digit(digits[i]));
    }
}

fn all_plain(text: &str) -> (all: bool)
    ensures
        all == plain(text@),
{
    let chars = chars_of(text);
    let mut index: usize = 0;
    while index < chars.len()
        invariant
            chars@ == text@,
            index <= chars.len(),
            forall|i: int| 0 <= i < index ==> !is_control(#[trigger] text@[i]),
        decreases chars.len() - index,
    {
        if chars[index] < '\u{20}' || chars[index] == '\u{7f}' {
            return false;
        }
        index += 1;
    }
    true
}

fn invalid(label: &str) -> (error: String)
    ensures
        error@ == "inbox: invalid "@ + label@,
{
    "inbox: invalid ".to_owned().concat(label)
}

/// Lets a text through that may name a message.
pub fn inbox_validate_lookup_arg(value: &str, label: &str) -> (result: Result<(), String>)
    ensures
        outcome(result) == guarded(lookup_ok(value@), label@),
{
    if value.is_empty() || begins_with(value, '-') || has_char(value, '/') || has_text(value, "..")
        || !all_plain(value) {
        return Err(invalid(label));
    }
    Ok(())
}

/// Lets a text through that may name a peer.
pub fn inbox_validate_target_arg(value: &str, label: &str) -> (result: Result<(), String>)
    ensures
        outcome(result) == guarded(target_ok(value@), label@),
{
    let core = trimmed(value);
    if core.is_empty() || !same_text(core, value) || begins_with(value, '-') {
        return Err(invalid(label));
    }
    if has_char(value, '/') || !all_plain(value) {
        return Err(invalid(label));
    }
    Ok(())
}

/// The value that stands behind the flag at `index`.
pub fn inbox_required_value<'a>(argv: &'a [String], index: usize, flag: &str) -> (result: Result<
    &'a str,
    String,
>)
    requires
        index < usize::MAX,
    ensures
        outcome(result) == flag_value(words(argv@), index as int, flag@),
{
    if index + 1 >= argv.len() {
        return Err("inbox: missing ".to_owned().concat(flag).concat(" value"));
    }
    let value: &'a str = argv[index + 1].as_str();
    if begins_with(value, '-') {
        return Err("inbox: ".to_owned().concat(flag).concat(" value must not start with '-'"));
    }
    Ok(value)
}

/// The one argument of a command that takes a message's name.
pub open spec fn single_id(argv: Seq<Seq<char>>, usage: Seq<char>) -> Result<
    Seq<char>,
    Seq<char>,
> {
    if argv.len() != 1 {
        Err(usage)
    } else {
        match guarded(lookup_ok(argv[0]), "id"@) {
            Ok(_) => Ok(argv[0]),
            Err(error) => Err(error),
        }
    }
}

/// The one argument, which has to be able to name a message.
pub fn inbox_single_id_arg<'a>(argv: &'a [String], usage: &str) -> (result: Result<&'a str, String>)
    ensures
        outcome(result) == single_id(words(argv@), usage@),
{
    if argv.len() != 1 {
        return Err(usage.to_owned());
    }
    let value: &'a str = argv[0].as_str();
    match inbox_validate_lookup_arg(value, "id") {
        Ok(_) => Ok(value),
        Err(error) => Err(error),
    }
}

/// The count that a flag's value gives.
pub fn inbox_parse_usize(value: &str, flag: &str) -> (result: Result<usize, String>)
    ensures
        match result {
            Ok(count) => count_value(value@, flag@) == Ok::<nat, Seq<char>>(count as nat),
            Err(error) => count_value(value@, flag@) == Err::<nat, Seq<char>>(error@),
        },
{
    match unsigned_number(value) {
        Some(count) if count <= usize::MAX as u64 => Ok(count as usize),
        _ => Err(flag.to_owned().concat(" must be a non-negative integer")),
    }
}

fn scale_of(digits: usize) -> (scale: u64)
    requires
        digits <= 6,
    ensures
        scale == power_of_ten(digits as nat),
{
    proof {
        reveal_with_fuel(power_of_ten, 7);
    }
    match digits {
        0 => 1,
        1 => 10,
        2 => 100,
        3 => 1_000,
        4 => 10_000,
        5 => 100_000,
        _ => 1_000_000,
    }
}

/// The seconds that a number of hours gives, whether or not they fit into 64 bits.
fn hours_seconds(value: &str) -> (result: Result<u128, String>)
    ensures
        match result {
            Ok(seconds) => hours_value(value@) == Ok::<nat, Seq<char>>(seconds as nat),
            Err(error) => hours_value(value@) == Err::<nat, Seq<char>>(error@),
        },
{
    let (whole, fraction): (&str, &str) = match split_at_mark(value, ".") {
        Some(parts) => parts,
        None => (value, ""),
    };
    proof {
        reveal_strlit("");
        assert(cut_once(value@, "."@) is None ==> fraction@ =~= Seq::<char>::empty());
        fraction_is_small(fraction@);
    }
    let hours: u64 = match unsigned_number(whole) {
        Some(hours) => hours,
        None => {
            return Err("--older-than-hours must be a non-negative number".to_owned());
        },
    };
    let seconds: u64 = match hours.checked_mul(3600) {
        Some(seconds) => seconds,
        None => {
            return Err("--older-than-hours is too large".to_owned());
        },
    };
    let digits = chars_of(fraction);
    assert(digits@.skip(0) =~= fraction@);
    if !digits_from(&digits, 0) {
        return Err("--older-than-hours must be a non-negative number".to_owned());
    }
    let kept: usize = if digits.len() < 6 {
        digits.len()
    } else {
        6
    };
    assert(digits@.subrange(0, kept as int) =~= fraction@.take(kept as int));
    proof {
        digits_bound(fraction@.take(kept as int));
        reveal_with_fuel(power_of_ten, 7);
    }
    match digits_number(&digits, 0, kept) {
        Some(part) => Ok(seconds as u128 + (part * 3600 / scale_of(kept)) as u128),
        None => Err("--older-than-hours must be a non-negative number".to_owned()),
    }
}

/// Whether the seconds that a number of hours gives fit into 64 bits.
pub fn inbox_hours_fit(value: &str) -> (fit: bool)
    ensures
        fit == hours_fit(value@),
{
    match hours_seconds(value) {
        Ok(seconds) => seconds <= u64::MAX as u128,
        Err(_) => true,
    }
}

/// The seconds that a number of hours gives, such as `4` or `0.5`.
pub fn inbox_parse_hours_seconds(value: &str) -> (result: Result<u64, String>)
    requires
        hours_fit(value@),
    ensures
        match result {
            Ok(seconds) => hours_value(value@) == Ok::<nat, Seq<char>>(seconds as nat),
            Err(error) => hours_value(value@) == Err::<nat, Seq<char>>(error@),
        },
{
    match hours_seconds(value) {
        Ok(seconds) => Ok(seconds as u64),
        Err(error) => Err(error),
    }
}

} // verus!
