//! Texts as sequences of characters: the few questions that the inbox asks of them.
use vstd::prelude::*;
use vstd::utf8::is_ascii_chars;

verus! {

/// `String::push` puts the character behind what the string already held.
pub assume_specification[ String::push ](s: &mut String, c: char)
    ensures
        final(s)@ == old(s)@.push(c),
;

/// The lower case of a text, as Unicode gives it.
pub uninterp spec fn lowercase(text: Seq<char>) -> Seq<char>;

/// The lower case of an ASCII letter; any other character as it is.
pub open spec fn ascii_lower(c: char) -> char {
    if 'A' <= c <= 'Z' {
        (c as u32 + 32) as char
    } else {
        c
    }
}

/// `str::to_lowercase` gives the lower case of the whole text. Of a text that is all
/// ASCII it changes the letters `A` to `Z` alone, each into its small letter.
pub assume_specification[ str::to_lowercase ](text: &str) -> (lower: String)
    ensures
        lower@ == lowercase(text@),
        is_ascii_chars(text@) ==> lower@ == text@.map_values(|c: char| ascii_lower(c)),
;

/// The texts of a list of strings.
pub open spec fn words(list: Seq<String>) -> Seq<Seq<char>> {
    list.map_values(|word: String| word@)
}

/// What a fallible call came to, by the views of its value and of its error text.
pub open spec fn outcome<T: View>(result: Result<T, String>) -> Result<T::V, Seq<char>> {
    match result {
        Ok(value) => Ok(value@),
        Err(error) => Err(error@),
    }
}

/// The characters with Unicode's `White_Space` property.
pub open spec fn is_white(c: char) -> bool {
    ||| '\u{9}' <= c <= '\u{d}'
    ||| c == '\u{20}'
    ||| c == '\u{85}'
    ||| c == '\u{a0}'
    ||| c == '\u{1680}'
    ||| '\u{2000}' <= c <= '\u{200a}'
    ||| c == '\u{2028}'
    ||| c == '\u{2029}'
    ||| c == '\u{202f}'
    ||| c == '\u{205f}'
    ||| c == '\u{3000}'
}

/// The text without the white space that it begins with.
pub open spec fn trim_start(text: Seq<char>) -> Seq<char>
    decreases text.len(),
{
    if text.len() > 0 && is_white(text.first()) {
        trim_start(text.drop_first())
    } else {
        text
    }
}

/// The text without the white space that it ends with.
pub open spec fn trim_end(text: Seq<char>) -> Seq<char>
    decreases text.len(),
{
    if text.len() > 0 && is_white(text.last()) {
        trim_end(text.drop_last())
    } else {
        text
    }
}

/// The text without the white space around it.
pub open spec fn trim(text: Seq<char>) -> Seq<char> {
    trim_end(trim_start(text))
}

/// Whether the text begins with this character.
pub open spec fn begins(text: Seq<char>, c: char) -> bool {
    text.len() > 0 && text.first() == c
}

/// Whether `part` stands in the text from position `at` on.
pub open spec fn occurs_at(text: Seq<char>, part: Seq<char>, at: int) -> bool {
    0 <= at <= text.len() - part.len() && text.subrange(at, at + part.len()) == part
}

/// Whether `part` stands anywhere in the text.
pub open spec fn has_part(text: Seq<char>, part: Seq<char>) -> bool {
    exists|at: int| occurs_at(text, part, at)
}

/// The first position, from `from` on, at which `part` stands in the text.
pub open spec fn first_from(text: Seq<char>, part: Seq<char>, from: nat) -> Option<nat>
    decreases text.len() - from,
{
    if from + part.len() > text.len() {
        None
    } else if occurs_at(text, part, from as int) {
        Some(from)
    } else if from == text.len() {
        None
    } else {
        first_from(text, part, from + 1)
    }
}

/// The text cut at the first `mark`: what stands before it and what stands behind it.
pub open spec fn cut_once(text: Seq<char>, mark: Seq<char>) -> Option<(Seq<char>, Seq<char>)> {
    match first_from(text, mark, 0) {
        Some(at) => Some((text.take(at as int), text.skip((at + mark.len()) as int))),
        None => None,
    }
}

/// The text without `tail`, if it ends with it.
pub open spec fn without_tail(text: Seq<char>, tail: Seq<char>) -> Seq<char> {
    if tail.is_suffix_of(text) {
        text.take(text.len() - tail.len())
    } else {
        text
    }
}

/// The text without `head`, taken off as often as the text begins with it.
pub open spec fn without_heads(text: Seq<char>, head: Seq<char>) -> Seq<char>
    decreases text.len(),
{
    if head.len() > 0 && head.is_prefix_of(text) {
        without_heads(text.skip(head.len() as int), head)
    } else {
        text
    }
}

/// How many characters stand before the first line end, or before the text's end.
pub open spec fn line_len(text: Seq<char>) -> nat
    decreases text.len(),
{
    if text.len() == 0 || text.first() == '\n' {
        0
    } else {
        1 + line_len(text.drop_first())
    }
}

/// The first line that holds more than white space, without the white space around it.
pub open spec fn first_filled_line(text: Seq<char>) -> Option<Seq<char>>
    decreases text.len(),
{
    let line = trim(text.take(line_len(text) as int));
    if line.len() > 0 {
        Some(line)
    } else if line_len(text) < text.len() {
        first_filled_line(text.skip(line_len(text) as int + 1))
    } else {
        None
    }
}

/// The text on one line: each line end turned into a space.
pub open spec fn on_one_line(text: Seq<char>) -> Seq<char> {
    text.map_values(|c: char| if c == '\n' { ' ' } else { c })
}

/// The texts in order, with `mark` between each two.
pub open spec fn joined(texts: Seq<Seq<char>>, mark: Seq<char>) -> Seq<char>
    decreases texts.len(),
{
    if texts.len() == 0 {
        Seq::empty()
    } else if texts.len() == 1 {
        texts.first()
    } else {
        joined(texts.drop_last(), mark) + mark + texts.last()
    }
}

/// The texts in order, one directly behind the other.
pub open spec fn in_a_row(texts: Seq<Seq<char>>) -> Seq<char>
    decreases texts.len(),
{
    if texts.len() == 0 {
        Seq::empty()
    } else {
        in_a_row(texts.drop_last()) + texts.last()
    }
}

/// Trimming takes nothing but the two ends.
pub(crate) proof fn trim_is_subrange(text: Seq<char>, low: int, high: int)
    requires
        0 <= low <= high <= text.len(),
        forall|i: int| 0 <= i < low ==> is_white(#[trigger] text[i]),
        forall|i: int| high <= i < text.len() ==> is_white(#[trigger] text[i]),
        low < high ==> !is_white(text[low]) && !is_white(text[high - 1]),
        low == high ==> high == text.len(),
    ensures
        trim(text) == text.subrange(low, high),
    decreases text.len(),
{
    if low > 0 {
        trim_is_subrange(text.drop_first(), low - 1, high - 1);
        assert(trim_start(text) == trim_start(text.drop_first()));
        assert(text.drop_first().subrange(low - 1, high - 1) =~= text.subrange(low, high));
    } else {
        trim_end_is_prefix(text, high);
        if text.len() > 0 && low == high {
            assert(is_white(text[0]));
        }
    }
}

proof fn trim_end_is_prefix(text: Seq<char>, high: int)
    requires
        0 <= high <= text.len(),
        forall|i: int| high <= i < text.len() ==> is_white(#[trigger] text[i]),
        high > 0 ==> !is_white(text[high - 1]),
    ensures
        trim_end(text) == text.subrange(0, high),
    decreases text.len(),
{
    if high < text.len() {
        trim_end_is_prefix(text.drop_last(), high);
        assert(text.drop_last().subrange(0, high) =~= text.subrange(0, high));
    } else {
        assert(text.subrange(0, high) =~= text);
    }
}

/// What trimming leaves neither begins nor ends with white space, and trimming it again
/// changes nothing.
pub proof fn trim_is_idempotent(text: Seq<char>)
    ensures
        trim(trim(text)) == trim(text),
        trim(text).len() > 0 ==> !is_white(trim(text).first()) && !is_white(trim(text).last()),
    decreases text.len(),
{
    if text.len() > 0 && is_white(text.first()) {
        trim_is_idempotent(text.drop_first());
    } else {
        trim_end_keeps_first(text);
        let rest = trim_end(text);
        assert(trim_start(rest) == rest);
    }
}

proof fn trim_end_keeps_first(text: Seq<char>)
    ensures
        trim_end(trim_end(text)) == trim_end(text),
        trim_end(text).len() > 0 ==> trim_end(text).first() == text.first(),
        trim_end(text).len() > 0 ==> !is_white(trim_end(text).last()),
    decreases text.len(),
{
    if text.len() > 0 && is_white(text.last()) {
        trim_end_keeps_first(text.drop_last());
    }
}

/// The first place found is a place, none stands before it, and one is found wherever
/// there is one.
pub proof fn first_from_is_first(text: Seq<char>, part: Seq<char>, from: nat)
    ensures
        first_from(text, part, from) matches Some(at) ==> {
            &&& from <= at
            &&& occurs_at(text, part, at as int)
            &&& forall|other: int| from <= other < at ==> !#[trigger] occurs_at(text, part, other)
        },
        first_from(text, part, from) is None ==> forall|other: int|
            from <= other ==> !#[trigger] occurs_at(text, part, other),
    decreases text.len() - from,
{
    if from + part.len() <= text.len() && !occurs_at(text, part, from as int) && from
        != text.len() {
        first_from_is_first(text, part, from + 1);
    }
}

/// Whether two texts are the same, character by character.
pub(crate) fn same_text(a: &str, b: &str) -> (same: bool)
    ensures
        same == (a@ == b@),
{
    a.to_owned() == b.to_owned()
}

/// The characters of a text, in order.
pub(crate) fn chars_of(text: &str) -> (chars: Vec<char>)
    ensures
        chars@ == text@,
{
    let mut chars: Vec<char> = Vec::new();
    for c in it: text.chars()
        invariant
            it.seq() == text@,
            chars@ == text@.take(it.index() as int),
    {
        chars.push(c);
    }
    chars
}

/// Whether a character is white space.
pub(crate) fn white(c: char) -> (is: bool)
    ensures
        is == is_white(c),
{
    ('\u{9}' <= c && c <= '\u{d}') || c == '\u{20}' || c == '\u{85}' || c == '\u{a0}' || c
        == '\u{1680}' || ('\u{2000}' <= c && c <= '\u{200a}') || c == '\u{2028}' || c
        == '\u{2029}' || c == '\u{202f}' || c == '\u{205f}' || c == '\u{3000}'
}

/// The text without the white space around it.
pub(crate) fn trimmed(text: &str) -> (rest: &str)
    ensures
        rest@ == trim(text@),
{
    let chars = chars_of(text);
    let mut low: usize = 0;
    while low < chars.len() && white(chars[low])
        invariant
            chars@ == text@,
            low <= chars.len(),
            forall|i: int| 0 <= i < low ==> is_white(#[trigger] text@[i]),
        decreases chars.len() - low,
    {
        low += 1;
    }
    let mut high: usize = chars.len();
    while high > low && white(chars[high - 1])
        invariant
            chars@ == text@,
            low <= high <= chars.len(),
            low < chars.len() ==> !is_white(text@[low as int]),
            forall|i: int| high <= i < text@.len() ==> is_white(#[trigger] text@[i]),
        decreases high,
    {
        high -= 1;
    }
    proof {
        trim_is_subrange(text@, low as int, high as int);
    }
    text.substring_char(low, high)
}

/// Whether the text begins with this character.
pub(crate) fn begins_with(text: &str, c: char) -> (first: bool)
    ensures
        first == begins(text@, c),
{
    let chars = chars_of(text);
    chars.len() > 0 && chars[0] == c
}

/// Whether the text holds this character.
pub(crate) fn has_char(text: &str, c: char) -> (has: bool)
    ensures
        has == text@.contains(c),
{
    let chars = chars_of(text);
    let mut index: usize = 0;
    while index < chars.len()
        invariant
            chars@ == text@,
            index <= chars.len(),
            forall|i: int| 0 <= i < index ==> text@[i] != c,
        decreases chars.len() - index,
    {
        if chars[index] == c {
            return true;
        }
        index += 1;
    }
    false
}

fn stands_at(chars: &Vec<char>, part: &Vec<char>, at: usize) -> (stands: bool)
    requires
        at + part.len() <= chars.len(),
    ensures
        stands == occurs_at(chars@, part@, at as int),
{
    let mut index: usize = 0;
    while index < part.len()
        invariant
            at + part.len() <= chars.len(),
            index <= part.len(),
            forall|i: int| 0 <= i < index ==> #[trigger] part@[i] == chars@[at + i],
        decreases part.len() - index,
    {
        if chars[at + index] != part[index] {
            assert(chars@.subrange(at as int, at + part.len())[index as int] != part@[index as int]);
            return false;
        }
        index += 1;
    }
    assert(chars@.subrange(at as int, at + part.len()) =~= part@);
    true
}

/// The first position at which `part` stands in the text.
pub(crate) fn first_place(text: &str, part: &str) -> (place: Option<usize>)
    ensures
        place is Some <==> first_from(text@, part@, 0) is Some,
        place matches Some(at) ==> first_from(text@, part@, 0) == Some(at as nat),
        place matches Some(at) ==> at + part@.len() <= text@.len(),
{
    let chars = chars_of(text);
    let wanted = chars_of(part);
    let mut at: usize = 0;
    while at <= chars.len() && wanted.len() <= chars.len() - at
        invariant
            chars@ == text@,
            wanted@ == part@,
            at <= chars.len(),
            first_from(text@, part@, 0) == first_from(text@, part@, at as nat),
        decreases chars.len() - at,
    {
        if stands_at(&chars, &wanted, at) {
            return Some(at);
        }
        if at == chars.len() {
            return None;
        }
        at += 1;
    }
    None
}

/// Whether `part` stands anywhere in the text.
pub(crate) fn has_text(text: &str, part: &str) -> (has: bool)
    ensures
        has == has_part(text@, part@),
{
    proof {
        first_from_is_first(text@, part@, 0);
    }
    first_place(text, part).is_some()
}

/// Whether the text begins with `head`.
pub(crate) fn starts_with_text(text: &str, head: &str) -> (starts: bool)
    ensures
        starts == head@.is_prefix_of(text@),
{
    let chars = chars_of(text);
    let wanted = chars_of(head);
    wanted.len() <= chars.len() && stands_at(&chars, &wanted, 0)
}

/// The text cut at the first `mark`.
pub(crate) fn split_at_mark<'a>(text: &'a str, mark: &str) -> (cut: Option<(&'a str, &'a str)>)
    ensures
        cut is Some <==> cut_once(text@, mark@) is Some,
        cut matches Some(parts) ==> cut_once(text@, mark@) == Some((parts.0@, parts.1@)),
{
    match first_place(text, mark) {
        Some(at) => {
            let whole: usize = text.unicode_len();
            let behind: usize = at + mark.unicode_len();
            assert(text@.subrange(0, at as int) =~= text@.take(at as int));
            assert(text@.subrange(behind as int, whole as int) =~= text@.skip(behind as int));
            Some((text.substring_char(0, at), text.substring_char(behind, whole)))
        },
        None => None,
    }
}

/// The text without `tail`, if it ends with it.
pub(crate) fn strip_tail<'a>(text: &'a str, tail: &str) -> (rest: &'a str)
    ensures
        rest@ == without_tail(text@, tail@),
{
    let chars = chars_of(text);
    let wanted = chars_of(tail);
    if wanted.len() <= chars.len() && stands_at(&chars, &wanted, chars.len() - wanted.len()) {
        let kept: usize = chars.len() - wanted.len();
        assert(text@.subrange(0, kept as int) =~= text@.take(kept as int));
        text.substring_char(0, kept)
    } else {
        text
    }
}

/// The text without `head`, taken off as often as the text begins with it.
pub(crate) fn strip_heads<'a>(text: &'a str, head: &str) -> (rest: &'a str)
    requires
        head@.len() > 0,
    ensures
        rest@ == without_heads(text@, head@),
{
    let chars = chars_of(text);
    let wanted = chars_of(head);
    let mut at: usize = 0;
    assert(text@.skip(0) =~= text@);
    while wanted.len() <= chars.len() - at && stands_at(&chars, &wanted, at)
        invariant
            chars@ == text@,
            wanted@ == head@,
            head@.len() > 0,
            at <= chars.len(),
            without_heads(text@, head@) == without_heads(text@.skip(at as int), head@),
        decreases chars.len() - at,
    {
        assert(text@.skip(at as int).subrange(0, head@.len() as int) =~= head@);
        assert(text@.skip(at as int).skip(head@.len() as int) =~= text@.skip(
            (at + head@.len()) as int,
        ));
        at += wanted.len();
    }
    let rest = text.substring_char(at, chars.len());
    assert(rest@ =~= text@.skip(at as int));
    proof {
        if head@.is_prefix_of(rest@) {
            assert(text@.subrange(at as int, at + head@.len()) =~= rest@.subrange(
                0,
                head@.len() as int,
            ));
        }
    }
    rest
}

/// The first line that holds more than white space, without the white space around it.
pub(crate) fn first_filled(text: &str) -> (line: Option<&str>)
    ensures
        line is Some <==> first_filled_line(text@) is Some,
        line matches Some(found) ==> first_filled_line(text@) == Some(found@),
{
    let chars = chars_of(text);
    let mut start: usize = 0;
    assert(text@.skip(0) =~= text@);
    loop
        invariant
            chars@ == text@,
            start <= chars.len(),
            first_filled_line(text@) == first_filled_line(text@.skip(start as int)),
        decreases chars.len() - start,
    {
        let ghost rest = text@.skip(start as int);
        let mut end: usize = start;
        assert(rest.skip(0) =~= rest);
        while end < chars.len() && chars[end] != '\n'
            invariant
                chars@ == text@,
                start <= end <= chars.len(),
                rest == text@.skip(start as int),
                line_len(rest) == end - start + line_len(text@.skip(end as int)),
            decreases chars.len() - end,
        {
            assert(text@.skip(end as int).drop_first() =~= text@.skip(end + 1));
            end += 1;
        }
        assert(line_len(text@.skip(end as int)) == 0);
        assert(text@.subrange(start as int, end as int) =~= rest.take(line_len(rest) as int));
        let line = trimmed(text.substring_char(start, end));
        if !line.is_empty() {
            return Some(line);
        }
        if end == chars.len() {
            return None;
        }
        assert(rest.skip(line_len(rest) as int + 1) =~= text@.skip(end + 1));
        start = end + 1;
    }
}

/// The text with each line end turned into a space.
pub(crate) fn one_line(text: &str) -> (line: String)
    ensures
        line@ == on_one_line(text@),
{
    let chars = chars_of(text);
    let mut line = String::new();
    let mut index: usize = 0;
    while index < chars.len()
        invariant
            chars@ == text@,
            index <= chars.len(),
            line@ =~= on_one_line(text@).take(index as int),
        decreases chars.len() - index,
    {
        line.push(if chars[index] == '\n' { ' ' } else { chars[index] });
        index += 1;
    }
    line
}

/// The strings in order, with `mark` between each two.
pub(crate) fn join_texts(texts: &[String], mark: &str) -> (text: String)
    ensures
        text@ == joined(words(texts@), mark@),
{
    let mut text = String::new();
    let mut index: usize = 0;
    while index < texts.len()
        invariant
            index <= texts.len(),
            text@ =~= joined(words(texts@).take(index as int), mark@),
        decreases texts.len() - index,
    {
        if index > 0 {
            text.append(mark);
        }
        text.append(texts[index].as_str());
        assert(words(texts@).take(index + 1).drop_last() =~= words(texts@).take(index as int));
        index += 1;
    }
    assert(words(texts@).take(index as int) =~= words(texts@));
    text
}

} // verus!
