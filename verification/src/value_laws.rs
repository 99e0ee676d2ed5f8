//! What numbers and the arguments that give them come to, told by their digits and their
//! characters.
use vstd::prelude::*;

use crate::args::{
    count_value, flag_value, fraction_seconds, guarded, hour_parts, hours_fit, hours_value,
    is_control, lookup_ok, plain, single_id, target_ok,
};
use crate::decimal::{
    all_digits, decimal, decimal_reads_back, digit_value, digits_bound, digits_value, is_digit,
    power_of_ten, unsigned,
};
use crate::text::{begins, cut_once, has_part, is_white, occurs_at, trim, trim_is_idempotent};
use crate::text_laws::{cut_is_at_the_first_mark, trim_leaves_the_core};

verus! {

/// The digits are the ten characters from code 48 on, and each is worth its distance from
/// there.
pub proof fn digits_by_code(c: char)
    ensures
        is_digit(c) <==> 48 <= c as int <= 57,
        is_digit(c) ==> digit_value(c) == c as int - 48,
{
}

/// A text holds digits alone exactly where each of its characters is one, however many.
pub proof fn rows_of_digits_by_character(text: Seq<char>)
    ensures
        all_digits(text) <==> forall|i: int|
            0 <= i < text.len() ==> '0' <= #[trigger] text[i] <= '9',
{
    if forall|i: int| 0 <= i < text.len() ==> '0' <= #[trigger] text[i] <= '9' {
        assert forall|i: int| 0 <= i < text.len() implies is_digit(#[trigger] text[i]) by {}
    }
    if all_digits(text) {
        assert forall|i: int| 0 <= i < text.len() implies '0' <= #[trigger] text[i] <= '9' by {
            assert(is_digit(text[i]));
        }
    }
}

/// A number of hours fits where its seconds do, and so does a text that gives none.
pub proof fn hours_fit_where_their_seconds_do(value: Seq<char>)
    ensures
        hours_value(value) matches Ok(seconds) ==> (hours_fit(value) <==> seconds <= u64::MAX),
        hours_value(value) is Err ==> hours_fit(value),
{
}

/// One more digit behind a row makes the row worth ten times as much, and the digit more.
pub proof fn one_more_digit(digits: Seq<char>, c: char)
    ensures
        digits_value(Seq::empty()) == 0,
        digits_value(digits.push(c)) == 10 * digits_value(digits) + digit_value(c),
{
    assert(digits.push(c).drop_last() =~= digits);
}

/// A number is written without a zero in front, but for zero itself.
pub proof fn no_zero_in_front(value: nat)
    ensures
        value > 0 ==> decimal(value)[0] != '0',
        value == 0 ==> decimal(value) == seq!['0'],
    decreases value,
{
    decimal_reads_back(value);
    if value >= 10 {
        decimal_reads_back(value / 10);
        no_zero_in_front(value / 10);
    }
}

/// Each power of ten is ten times the one before.
pub proof fn powers_of_ten_grow(exponent: nat)
    ensures
        power_of_ten(0) == 1,
        power_of_ten(exponent + 1) == 10 * power_of_ten(exponent),
{
}

/// A text gives a number exactly where it is a row of digits, with or without one `+` before
/// it, and then the number that the digits are worth.
pub proof fn numbers_are_rows_of_digits(text: Seq<char>, digits: Seq<char>)
    ensures
        digits.len() > 0 && all_digits(digits) ==> {
            &&& unsigned(digits) == Some(digits_value(digits))
            &&& unsigned(seq!['+'] + digits) == Some(digits_value(digits))
        },
        unsigned(text) matches Some(value) ==> exists|row: Seq<char>|
            {
                &&& row.len() > 0
                &&& forall|i: int| 0 <= i < row.len() ==> '0' <= #[trigger] row[i] <= '9'
                &&& text == row || text == seq!['+'] + row
                &&& value == #[trigger] digits_value(row)
            },
{
    if digits.len() > 0 && all_digits(digits) {
        assert(is_digit(digits[0]));
        assert((seq!['+'] + digits).drop_first() =~= digits);
        assert((seq!['+'] + digits)[0] == '+');
    }
    if unsigned(text) is Some {
        let row = if text.len() > 0 && text.first() == '+' {
            text.drop_first()
        } else {
            text
        };
        assert(seq!['+'] + text.drop_first() =~= text || row == text);
        assert forall|i: int| 0 <= i < row.len() implies '0' <= #[trigger] row[i] <= '9' by {
            assert(is_digit(row[i]));
        }
        assert(unsigned(text)->0 == digits_value(row));
    }
}

/// A count is accepted exactly where the text gives a number that a machine word holds, and is
/// that number; the error names the flag.
pub proof fn counts_are_the_numbers_given(value: Seq<char>, flag: Seq<char>)
    ensures
        count_value(value, flag) matches Ok(count) ==> unsigned(value) == Some(count) && count
            <= usize::MAX,
        unsigned(value) matches Some(number) ==> (number <= usize::MAX ==> count_value(value, flag)
            == Ok::<nat, Seq<char>>(number)),
        count_value(value, flag) matches Err(error) ==> error == flag
            + " must be a non-negative integer"@,
{
}

/// The part of an hour that digits behind the point give, in seconds, is the greatest whole
/// number that is no more than 3600 times the fraction. Digits behind the sixth do not count.
pub proof fn fractions_are_rounded_down(digits: Seq<char>)
    requires
        all_digits(digits),
    ensures
        digits.len() <= 6 ==> {
            let seconds = fraction_seconds(digits);
            let scale = power_of_ten(digits.len());
            seconds * scale <= digits_value(digits) * 3600 < (seconds + 1) * scale
        },
        digits.len() > 6 ==> fraction_seconds(digits) == fraction_seconds(digits.take(6)),
{
    if digits.len() <= 6 {
        assert(digits.take(digits.len() as int) =~= digits);
        let scale = power_of_ten(digits.len()) as int;
        let total = (digits_value(digits) * 3600) as int;
        digits_bound(digits);
        let seconds = fraction_seconds(digits) as int;
        assert(seconds == total / scale);
        assert(seconds * scale <= total < (seconds + 1) * scale) by (nonlinear_arith)
            requires
                scale > 0,
                total >= 0,
                seconds == total / scale,
        ;
    } else {
        assert(digits.take(6).take(6) =~= digits.take(6));
    }
}

proof fn point_is_the_first(whole: Seq<char>, fraction: Seq<char>)
    requires
        all_digits(whole),
    ensures
        cut_once(whole + "."@ + fraction, "."@) == Some((whole, fraction)),
{
    reveal_strlit(".");
    let text = whole + "."@ + fraction;
    cut_is_at_the_first_mark(text, "."@);
    assert(text == whole + "."@ + fraction);
    let parts = cut_once(text, "."@)->0;
    assert(text == parts.0 + "."@ + parts.1);
    if parts.0.len() < whole.len() {
        assert(text[parts.0.len() as int] == '.');
        assert(text[parts.0.len() as int] == whole[parts.0.len() as int]);
        assert(is_digit(whole[parts.0.len() as int]));
    }
    assert(parts.0.len() == whole.len());
    assert(parts.0 =~= text.take(whole.len() as int));
    assert(whole =~= text.take(whole.len() as int));
    assert(parts.1 =~= text.skip(whole.len() as int + 1));
    assert(fraction =~= text.skip(whole.len() as int + 1));
}

proof fn no_point(digits: Seq<char>)
    requires
        all_digits(digits),
    ensures
        cut_once(digits, "."@) is None,
{
    reveal_strlit(".");
    cut_is_at_the_first_mark(digits, "."@);
    if let Some(parts) = cut_once(digits, "."@) {
        let at = parts.0.len() as int;
        assert((parts.0 + "."@ + parts.1)[at] == '.');
        assert(is_digit(digits[at]));
    }
}

/// Hours are worth 3600 seconds each, however many they are, and with digits behind a point
/// the part of an hour that those give comes on top. Where the whole hours alone pass 64 bits,
/// they are too many.
pub proof fn hours_are_worth_their_seconds(whole: Seq<char>, fraction: Seq<char>)
    requires
        whole.len() > 0,
        all_digits(whole),
        all_digits(fraction),
        digits_value(whole) <= u64::MAX,
    ensures
        digits_value(whole) * 3600 <= u64::MAX ==> {
            &&& hours_value(whole) == Ok::<nat, Seq<char>>(digits_value(whole) * 3600)
            &&& hours_value(whole + "."@ + fraction) == Ok::<nat, Seq<char>>(
                digits_value(whole) * 3600 + fraction_seconds(fraction),
            )
        },
        digits_value(whole) * 3600 > u64::MAX ==> {
            &&& hours_value(whole) == Err::<nat, Seq<char>>("--older-than-hours is too large"@)
            &&& hours_value(whole + "."@ + fraction) == Err::<nat, Seq<char>>(
                "--older-than-hours is too large"@,
            )
        },
{
    no_point(whole);
    point_is_the_first(whole, fraction);
    numbers_are_rows_of_digits(whole, whole);
    fractions_are_rounded_down(Seq::empty());
    crate::args::whole_hours_are_exact(whole);
}

/// As many hours as a number, written as it is printed, are worth 3600 times that number.
pub proof fn printed_hours_are_exact(hours: nat)
    requires
        hours * 3600 <= u64::MAX,
    ensures
        hours_value(decimal(hours)) == Ok::<nat, Seq<char>>(hours * 3600),
{
    decimal_reads_back(hours);
    hours_are_worth_their_seconds(decimal(hours), Seq::empty());
}

/// What is accepted as a number of hours is a number, with or without a point and digits
/// behind it.
pub proof fn accepted_hours_are_numbers(value: Seq<char>)
    ensures
        hours_value(value) is Ok ==> {
            let parts = hour_parts(value);
            &&& value == parts.0 || value == parts.0 + "."@ + parts.1
            &&& unsigned(parts.0) is Some
            &&& forall|i: int| 0 <= i < parts.1.len() ==> 48 <= (#[trigger] parts.1[i] as int) <= 57
        },
{
    cut_is_at_the_first_mark(value, "."@);
    if hours_value(value) is Ok {
        let parts = hour_parts(value);
        assert forall|i: int| 0 <= i < parts.1.len() implies 48 <= (#[trigger] parts.1[i] as int)
            <= 57 by {
            assert(is_digit(parts.1[i]));
        }
    }
}

/// A text may name a message exactly where it is not empty, its first character is no `-`, no
/// character is a `/` or a control character by its code, and no two dots stand side by side.
pub proof fn lookups_by_character(value: Seq<char>)
    ensures
        lookup_ok(value) <==> {
            &&& value.len() > 0
            &&& value[0] != '-'
            &&& forall|i: int|
                0 <= i < value.len() ==> (#[trigger] value[i]) != '/' && value[i] as int >= 32
                    && value[i] as int != 127
            &&& forall|i: int|
                0 <= i < value.len() - 1 ==> !((#[trigger] value[i]) == '.' && value[i + 1] == '.')
        },
{
    reveal_strlit("..");
    if lookup_ok(value) {
        assert forall|i: int| 0 <= i < value.len() implies (#[trigger] value[i]) != '/'
            && value[i] as int >= 32 && value[i] as int != 127 by {
            assert(!is_control(value[i]));
        }
        assert forall|i: int| 0 <= i < value.len() - 1 implies !((#[trigger] value[i]) == '.'
            && value[i + 1] == '.') by {
            if value[i] == '.' && value[i + 1] == '.' {
                assert(value.subrange(i, i + 2) =~= ".."@);
                assert(occurs_at(value, ".."@, i));
            }
        }
    }
    if value.len() > 0 && value[0] != '-' && (forall|i: int|
        0 <= i < value.len() ==> (#[trigger] value[i]) != '/' && value[i] as int >= 32
            && value[i] as int != 127) && (forall|i: int|
        0 <= i < value.len() - 1 ==> !((#[trigger] value[i]) == '.' && value[i + 1] == '.')) {
        if has_part(value, ".."@) {
            let at = choose|at: int| occurs_at(value, ".."@, at);
            assert(value.subrange(at, at + 2)[0] == '.' && value.subrange(at, at + 2)[1] == '.');
            assert(value[at] == '.' && value[at + 1] == '.');
        }
        assert(plain(value));
    }
}

/// A text may name a peer exactly where it is not empty, has no white space at either end, its
/// first character is no `-`, and no character is a `/` or a control character by its code.
pub proof fn targets_by_character(value: Seq<char>)
    ensures
        target_ok(value) <==> {
            &&& value.len() > 0
            &&& !is_white(value[0])
            &&& !is_white(value[value.len() - 1])
            &&& value[0] != '-'
            &&& forall|i: int|
                0 <= i < value.len() ==> (#[trigger] value[i]) != '/' && value[i] as int >= 32
                    && value[i] as int != 127
        },
{
    trim_is_idempotent(value);
    if value.len() > 0 && !is_white(value[0]) && !is_white(value[value.len() - 1]) {
        let none = Seq::<char>::empty();
        trim_leaves_the_core(none, value, none);
        assert(none + value + none =~= value);
    }
    if target_ok(value) {
        assert forall|i: int| 0 <= i < value.len() implies (#[trigger] value[i]) != '/'
            && value[i] as int >= 32 && value[i] as int != 127 by {
            assert(!is_control(value[i]));
        }
    }
}

/// A guard lets through what passes, and else says which value is invalid.
pub proof fn guards_name_what_is_invalid(label: Seq<char>)
    ensures
        guarded(true, label) is Ok,
        guarded(false, label) == Err::<(), Seq<char>>("inbox: invalid "@ + label),
{
}

/// The value of a flag is the argument directly behind it, wherever the flag stands, unless
/// that begins with `-`; a flag that stands last has none.
pub proof fn values_stand_behind_their_flags(
    front: Seq<Seq<char>>,
    flag: Seq<char>,
    value: Seq<char>,
    rest: Seq<Seq<char>>,
    name: Seq<char>,
)
    ensures
        !begins(value, '-') ==> flag_value(
            front + seq![flag, value] + rest,
            front.len() as int,
            name,
        ) == Ok::<Seq<char>, Seq<char>>(value),
        begins(value, '-') ==> flag_value(
            front + seq![flag, value] + rest,
            front.len() as int,
            name,
        ) == Err::<Seq<char>, Seq<char>>("inbox: "@ + name + " value must not start with '-'"@),
        flag_value(front + seq![flag], front.len() as int, name) == Err::<Seq<char>, Seq<char>>(
            "inbox: missing "@ + name + " value"@,
        ),
{
    assert((front + seq![flag, value] + rest)[front.len() as int + 1] == value);
}

/// One argument that may name a message is taken whole; one that may not is invalid; and any
/// other number of arguments is answered with how the command is called.
pub proof fn one_name_is_taken(value: Seq<char>, argv: Seq<Seq<char>>, usage: Seq<char>)
    ensures
        lookup_ok(value) ==> single_id(seq![value], usage) == Ok::<Seq<char>, Seq<char>>(value),
        !lookup_ok(value) ==> single_id(seq![value], usage) == Err::<Seq<char>, Seq<char>>(
            "inbox: invalid id"@,
        ),
        argv.len() != 1 ==> single_id(argv, usage) == Err::<Seq<char>, Seq<char>>(usage),
{
    reveal_strlit("inbox: invalid ");
    reveal_strlit("id");
    reveal_strlit("inbox: invalid id");
    assert("inbox: invalid "@ + "id"@ =~= "inbox: invalid id"@);
}

} // verus!
