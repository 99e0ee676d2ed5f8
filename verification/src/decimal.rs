//! Whole numbers written in decimal digits.
use vstd::prelude::*;

use crate::text::chars_of;

verus! {

/// Whether a character is one of `0` to `9`.
pub open spec fn is_digit(c: char) -> bool {
    '0' <= c <= '9'
}

/// The number that a digit stands for.
pub open spec fn digit_value(c: char) -> nat {
    if is_digit(c) {
        (c as int - '0' as int) as nat
    } else {
        0
    }
}

/// The digit that stands for a number below ten.
pub open spec fn digit_of(value: nat) -> char {
    ('0' as int + value) as char
}

/// Whether a text holds digits alone.
pub open spec fn all_digits(text: Seq<char>) -> bool {
    forall|i: int| 0 <= i < text.len() ==> is_digit(#[trigger] text[i])
}

/// The number that a row of digits stands for.
pub open spec fn digits_value(digits: Seq<char>) -> nat
    decreases digits.len(),
{
    if digits.len() == 0 {
        0
    } else {
        10 * digits_value(digits.drop_last()) + digit_value(digits.last())
    }
}

/// The digits that a number is written with.
pub open spec fn decimal(value: nat) -> Seq<char>
    decreases value,
{
    if value < 10 {
        seq![digit_of(value)]
    } else {
        decimal(value / 10).push(digit_of(value % 10))
    }
}

/// The number that a text gives: one digit or more, with or without a `+` before them.
pub open spec fn unsigned(text: Seq<char>) -> Option<nat> {
    let digits = if text.len() > 0 && text.first() == '+' {
        text.drop_first()
    } else {
        text
    };
    if digits.len() > 0 && all_digits(digits) {
        Some(digits_value(digits))
    } else {
        None
    }
}

/// Ten to the power of `exponent`.
pub open spec fn power_of_ten(exponent: nat) -> nat
    decreases exponent,
{
    if exponent == 0 {
        1
    } else {
        10 * power_of_ten((exponent - 1) as nat)
    }
}

/// The digits of a number give the number back.
pub proof fn decimal_reads_back(value: nat)
    ensures
        decimal(value).len() > 0,
        all_digits(decimal(value)),
        digits_value(decimal(value)) == value,
        unsigned(decimal(value)) == Some(value),
    decreases value,
{
    reveal_with_fuel(digits_value, 2);
    if value < 10 {
        assert(decimal(value).drop_last() =~= Seq::<char>::empty());
    } else {
        decimal_reads_back(value / 10);
        let front = decimal(value / 10);
        assert(decimal(value).drop_last() =~= front);
        assert forall|i: int| 0 <= i < decimal(value).len() implies is_digit(
            #[trigger] decimal(value)[i],
        ) by {
            if i < front.len() {
                assert(is_digit(front[i]));
            }
        }
    }
    assert(is_digit(decimal(value)[0]));
}

/// Two numbers written the same are the same number.
pub proof fn decimal_tells_apart(a: nat, b: nat)
    requires
        decimal(a) == decimal(b),
    ensures
        a == b,
{
    decimal_reads_back(a);
    decimal_reads_back(b);
}

proof fn longer_is_no_smaller(digits: Seq<char>, kept: int)
    requires
        0 <= kept <= digits.len(),
    ensures
        digits_value(digits.take(kept)) <= digits_value(digits),
    decreases digits.len(),
{
    if kept < digits.len() {
        longer_is_no_smaller(digits.drop_last(), kept);
        assert(digits.drop_last().take(kept) =~= digits.take(kept));
    } else {
        assert(digits.take(kept) =~= digits);
    }
}

/// A row of digits is worth less than ten to the power of its length.
pub proof fn digits_bound(digits: Seq<char>)
    ensures
        digits_value(digits) < power_of_ten(digits.len()),
    decreases digits.len(),
{
    if digits.len() > 0 {
        digits_bound(digits.drop_last());
    }
}

fn digit_char(value: u64) -> (c: char)
    requires
        value < 10,
    ensures
        c == digit_of(value as nat),
{
    match value {
        0 => '0',
        1 => '1',
        2 => '2',
        3 => '3',
        4 => '4',
        5 => '5',
        6 => '6',
        7 => '7',
        8 => '8',
        _ => '9',
    }
}

/// The number written in decimal digits.
pub(crate) fn decimal_text(value: u64) -> (text: String)
    ensures
        text@ == decimal(value as nat),
    decreases value,
{
    let mut text = if value < 10 {
        String::new()
    } else {
        decimal_text(value / 10)
    };
    text.push(digit_char(value % 10));
    assert(value < 10 ==> text@ =~= decimal(value as nat));
    text
}

/// Whether all characters from `from` on are digits.
pub(crate) fn digits_from(chars: &Vec<char>, from: usize) -> (all: bool)
    requires
        from <= chars.len(),
    ensures
        all == all_digits(chars@.skip(from as int)),
{
    let mut index: usize = from;
    while index < chars.len()
        invariant
            from <= index <= chars.len(),
            forall|i: int| from <= i < index ==> is_digit(#[trigger] chars@[i]),
        decreases chars.len() - index,
    {
        if !('0' <= chars[index] && chars[index] <= '9') {
            assert(!is_digit(chars@.skip(from as int)[index - from]));
            return false;
        }
        index += 1;
    }
    true
}

/// The number that the characters from `from` up to `to` give, if it fits into 64 bits.
pub(crate) fn digits_number(chars: &Vec<char>, from: usize, to: usize) -> (number: Option<u64>)
    requires
        from <= to <= chars.len(),
        all_digits(chars@.subrange(from as int, to as int)),
    ensures
        number is Some <==> digits_value(chars@.subrange(from as int, to as int)) <= u64::MAX,
        number matches Some(value) ==> value == digits_value(
            chars@.subrange(from as int, to as int),
        ),
{
    let ghost digits = chars@.subrange(from as int, to as int);
    let mut number: u64 = 0;
    let mut index: usize = from;
    assert(digits.take(0) =~= Seq::<char>::empty());
    while index < to
        invariant
            from <= index <= to <= chars.len(),
            digits == chars@.subrange(from as int, to as int),
            all_digits(digits),
            number == digits_value(digits.take(index - from)),
        decreases to - index,
    {
        let c: char = chars[index];
        assert(digits[index - from] == c);
        let digit: u64 = c as u64 - '0' as u64;
        proof {
            assert(digits.take(index - from + 1).drop_last() =~= digits.take(index - from));
            longer_is_no_smaller(digits, index - from + 1);
        }
        match number.checked_mul(10) {
            Some(tens) => match tens.checked_add(digit) {
                Some(sum) => {
                    number = sum;
                },
                None => {
                    return None;
                },
            },
            None => {
                return None;
            },
        }
        index += 1;
    }
    assert(digits.take(to - from) =~= digits);
    Some(number)
}

/// The number that a text gives, if it gives one that fits into 64 bits.
pub(crate) fn unsigned_number(text: &str) -> (number: Option<u64>)
    ensures
        number is Some <==> unsigned(text@) is Some && unsigned(text@)->0 <= u64::MAX,
        number matches Some(value) ==> unsigned(text@) == Some(value as nat),
{
    let chars = chars_of(text);
    let from: usize = if chars.len() > 0 && chars[0] == '+' {
        1
    } else {
        0
    };
    assert(text@.skip(0) =~= text@);
    assert(from == 1 ==> text@.skip(1) =~= text@.drop_first());
    if from == chars.len() || !digits_from(&chars, from) {
        return None;
    }
    assert(chars@.subrange(from as int, chars.len() as int) =~= chars@.skip(from as int));
    digits_number(&chars, from, chars.len())
}

} // verus!
