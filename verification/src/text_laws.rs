//! What the questions asked of texts come to, told by how texts are put together.
use vstd::prelude::*;

use crate::text::{
    ascii_lower, begins, cut_once, first_filled_line, first_from, first_from_is_first, has_part,
    in_a_row, is_white, joined, line_len, occurs_at, on_one_line, outcome, trim, trim_is_subrange,
    without_heads, without_tail, words,
};

verus! {

/// White space is the tab and the four controls behind it, the space, and the other characters
/// that Unicode counts as such, by their codes.
pub proof fn white_space_by_code(c: char)
    ensures
        is_white(c) <==> {
            let code = c as int;
            9 <= code <= 13 || code == 32 || code == 133 || code == 160 || code == 5760 || 8192
                <= code <= 8202 || code == 8232 || code == 8233 || code == 8239 || code == 8287
                || code == 12288
        },
{
}

/// The letters `A` to `Z` lie 32 codes below their small letters; all else is kept.
pub proof fn small_letters_by_code(c: char)
    ensures
        65 <= c as int <= 90 ==> ascii_lower(c) as int == c as int + 32,
        !(65 <= c as int <= 90) ==> ascii_lower(c) == c,
{
}

/// A list of strings keeps every string, whole and in its place.
pub proof fn words_keep_every_string(list: Seq<String>)
    ensures
        words(list).len() == list.len(),
        forall|i: int| 0 <= i < list.len() ==> #[trigger] words(list)[i] == list[i]@,
{
}

/// What a call came to keeps its value and its error text whole.
pub proof fn outcome_keeps_both(value: String, error: String)
    ensures
        outcome(Ok::<String, String>(value)) == Ok::<Seq<char>, Seq<char>>(value@),
        outcome(Err::<String, String>(error)) == Err::<Seq<char>, Seq<char>>(error@),
{
}

/// Trimming takes white space off both ends, all of it, and nothing else: whatever stands
/// between two ends of white space, and has none at its own ends, is what is left.
pub proof fn trim_leaves_the_core(front: Seq<char>, core: Seq<char>, back: Seq<char>)
    requires
        forall|i: int| 0 <= i < front.len() ==> is_white(#[trigger] front[i]),
        forall|i: int| 0 <= i < back.len() ==> is_white(#[trigger] back[i]),
        core.len() > 0 ==> !is_white(core[0]) && !is_white(core[core.len() - 1]),
    ensures
        trim(front + core + back) == core,
{
    let text = front + core + back;
    if core.len() > 0 {
        let low = front.len() as int;
        let high = low + core.len();
        assert forall|i: int| high <= i < text.len() implies is_white(#[trigger] text[i]) by {
            assert(text[i] == back[i - high]);
        }
        assert forall|i: int| 0 <= i < low implies is_white(#[trigger] text[i]) by {
            assert(text[i] == front[i]);
        }
        assert(text[low] == core[0] && text[high - 1] == core[core.len() - 1]);
        trim_is_subrange(text, low, high);
        assert(text.subrange(low, high) =~= core);
    } else {
        let end = text.len() as int;
        assert forall|i: int| 0 <= i < end implies is_white(#[trigger] text[i]) by {
            if i < front.len() {
                assert(text[i] == front[i]);
            } else {
                assert(text[i] == back[i - front.len()]);
            }
        }
        trim_is_subrange(text, end, end);
        assert(text.subrange(end, end) =~= core);
    }
}

/// A text begins with its first character and no other; the empty text with none.
pub proof fn begins_with_its_first(c: char, rest: Seq<char>, other: char)
    ensures
        begins(seq![c] + rest, other) == (c == other),
        !begins(Seq::empty(), other),
{
    assert((seq![c] + rest)[0] == c);
}

/// A part stands in a text exactly where the text is that part with something before it and
/// something behind it, either of which may be empty.
pub proof fn has_part_is_between(text: Seq<char>, part: Seq<char>)
    ensures
        has_part(text, part) <==> exists|front: Seq<char>, back: Seq<char>|
            text == #[trigger] (front + part + back),
{
    if has_part(text, part) {
        let at = choose|at: int| occurs_at(text, part, at);
        let front = text.take(at);
        let back = text.skip(at + part.len());
        assert(text =~= front + part + back);
    }
    if exists|front: Seq<char>, back: Seq<char>| text == #[trigger] (front + part + back) {
        let (front, back) = choose|front: Seq<char>, back: Seq<char>|
            text == #[trigger] (front + part + back);
        assert(text.subrange(front.len() as int, (front.len() + part.len()) as int) =~= part);
        assert(occurs_at(text, part, front.len() as int));
    }
}

/// Cutting a text at a mark loses nothing, and cuts at the first place where the mark stands;
/// it fails only where the mark stands nowhere.
pub proof fn cut_is_at_the_first_mark(text: Seq<char>, mark: Seq<char>)
    ensures
        cut_once(text, mark) matches Some(parts) ==> {
            &&& text == parts.0 + mark + parts.1
            &&& forall|front: Seq<char>, back: Seq<char>|
                text == #[trigger] (front + mark + back) ==> front.len() >= parts.0.len()
        },
        cut_once(text, mark) is None ==> forall|front: Seq<char>, back: Seq<char>|
            text != #[trigger] (front + mark + back),
{
    first_from_is_first(text, mark, 0);
    assert forall|front: Seq<char>, back: Seq<char>|
        text == #[trigger] (front + mark + back) implies occurs_at(text, mark, front.len() as int) by {
        assert(text.subrange(front.len() as int, (front.len() + mark.len()) as int) =~= mark);
    }
    if let Some(parts) = cut_once(text, mark) {
        let at = first_from(text, mark, 0)->0 as int;
        assert(text.subrange(at, at + mark.len()) == mark);
        assert(text =~= parts.0 + mark + parts.1);
        assert forall|front: Seq<char>, back: Seq<char>|
            text == #[trigger] (front + mark + back) implies front.len() >= parts.0.len() by {
            assert(occurs_at(text, mark, front.len() as int));
        }
    } else {
        assert forall|front: Seq<char>, back: Seq<char>|
            text != #[trigger] (front + mark + back) by {
            if text == front + mark + back {
                assert(occurs_at(text, mark, front.len() as int));
            }
        }
    }
}

/// A tail that a text ends with is taken off once; a text that does not end with it is kept.
pub proof fn tail_comes_off(rest: Seq<char>, tail: Seq<char>, text: Seq<char>)
    ensures
        without_tail(rest + tail, tail) == rest,
        (forall|front: Seq<char>| text != #[trigger] (front + tail)) ==> without_tail(text, tail)
            == text,
{
    let whole = rest + tail;
    assert(whole.subrange(rest.len() as int, whole.len() as int) =~= tail);
    assert(whole.take(rest.len() as int) =~= rest);
    if tail.is_suffix_of(text) {
        assert(text =~= text.take(text.len() - tail.len()) + tail);
    }
}

/// A head comes off as often as the text begins with it: one more in front makes no difference,
/// and a text that does not begin with it is kept.
pub proof fn heads_come_off(head: Seq<char>, rest: Seq<char>, text: Seq<char>)
    requires
        head.len() > 0,
    ensures
        without_heads(head + rest, head) == without_heads(rest, head),
        (forall|back: Seq<char>| text != #[trigger] (head + back)) ==> without_heads(text, head)
            == text,
{
    let whole = head + rest;
    assert(whole.subrange(0, head.len() as int) =~= head);
    assert(whole.skip(head.len() as int) =~= rest);
    if head.is_prefix_of(text) {
        assert(text =~= head + text.skip(head.len() as int));
    }
}

proof fn line_ends_at_its_end(line: Seq<char>, rest: Seq<char>)
    requires
        !line.contains('\n'),
        rest.len() > 0 ==> rest[0] == '\n',
    ensures
        line_len(line + rest) == line.len(),
    decreases line.len(),
{
    if line.len() > 0 {
        let tail = line.drop_first();
        assert forall|i: int| 0 <= i < tail.len() implies tail[i] != '\n' by {
            assert(line[i + 1] == tail[i]);
        }
        line_ends_at_its_end(tail, rest);
        assert((line + rest).drop_first() =~= tail + rest);
        assert(line[0] != '\n');
    } else {
        assert(line + rest =~= rest);
    }
}

/// The first line decides where it holds more than white space, and then by what it holds
/// without the white space around it; else the lines behind it decide, and where there are
/// none there is no such line.
pub proof fn the_first_filled_line_decides(line: Seq<char>, rest: Seq<char>)
    requires
        !line.contains('\n'),
    ensures
        trim(line).len() > 0 ==> first_filled_line(line + seq!['\n'] + rest) == Some(trim(line)),
        trim(line).len() > 0 ==> first_filled_line(line) == Some(trim(line)),
        trim(line).len() == 0 ==> first_filled_line(line + seq!['\n'] + rest)
            == first_filled_line(rest),
        trim(line).len() == 0 ==> first_filled_line(line) is None,
{
    let end = seq!['\n'] + rest;
    let text = line + seq!['\n'] + rest;
    assert(text =~= line + end);
    line_ends_at_its_end(line, end);
    line_ends_at_its_end(line, Seq::empty());
    assert(line + Seq::<char>::empty() =~= line);
    assert(text.take(line.len() as int) =~= line);
    assert(line.take(line.len() as int) =~= line);
    assert(text.skip(line.len() as int + 1) =~= rest);
}

/// On one line a text keeps its length and every character that is no line end, and has a
/// space for each that is one.
pub proof fn one_line_keeps_the_rest(text: Seq<char>)
    ensures
        on_one_line(text).len() == text.len(),
        forall|i: int|
            0 <= i < text.len() ==> (text[i] == '\n' ==> #[trigger] on_one_line(text)[i] == ' ')
                && (text[i] != '\n' ==> on_one_line(text)[i] == text[i]),
{
}

/// How many characters some texts hold together.
pub open spec fn total_len(texts: Seq<Seq<char>>) -> nat
    decreases texts.len(),
{
    if texts.len() == 0 {
        0
    } else {
        texts.first().len() + total_len(texts.drop_first())
    }
}

proof fn total_len_grows(texts: Seq<Seq<char>>, text: Seq<char>)
    ensures
        total_len(texts.push(text)) == total_len(texts) + text.len(),
    decreases texts.len(),
{
    reveal_with_fuel(total_len, 2);
    if texts.len() == 0 {
        assert(texts.push(text).drop_first() =~= Seq::<Seq<char>>::empty());
    } else {
        total_len_grows(texts.drop_first(), text);
        assert(texts.push(text).drop_first() =~= texts.drop_first().push(text));
    }
}

/// Joining loses no text: one more text stands behind a mark behind all the others, and the
/// whole is as long as the texts and the marks between them together.
pub proof fn joining_keeps_every_text(texts: Seq<Seq<char>>, text: Seq<char>, mark: Seq<char>)
    ensures
        joined(Seq::empty(), mark) == Seq::<char>::empty(),
        joined(seq![text], mark) == text,
        texts.len() > 0 ==> joined(texts.push(text), mark) == joined(texts, mark) + mark + text,
        texts.len() > 0 ==> joined(texts, mark).len() == total_len(texts) + (texts.len() - 1)
            * mark.len(),
    decreases texts.len(),
{
    assert(texts.push(text).drop_last() =~= texts);
    if texts.len() > 0 {
        let front = texts.drop_last();
        let last = texts.last();
        assert(front.push(last) =~= texts);
        total_len_grows(front, last);
        if texts.len() == 1 {
            assert(total_len(front) == 0);
            assert(0 * mark.len() == 0) by (nonlinear_arith);
        } else {
            joining_keeps_every_text(front, last, mark);
            let gaps = texts.len() - 2;
            assert((gaps + 1) * mark.len() == gaps * mark.len() + mark.len()) by (nonlinear_arith);
        }
    }
}

/// Every text of a joined row stands in the whole, with all texts before it in front and all
/// texts behind it at the back.
pub proof fn joining_splits(front: Seq<Seq<char>>, back: Seq<Seq<char>>, mark: Seq<char>)
    requires
        front.len() > 0,
        back.len() > 0,
    ensures
        joined(front + back, mark) == joined(front, mark) + mark + joined(back, mark),
    decreases back.len(),
{
    let all = front + back;
    if back.len() == 1 {
        assert(all =~= front.push(back[0]));
        joining_keeps_every_text(front, back[0], mark);
        assert(back =~= seq![back[0]]);
        joining_keeps_every_text(Seq::empty(), back[0], mark);
    } else {
        let less = back.drop_last();
        joining_splits(front, less, mark);
        assert(all =~= (front + less).push(back.last()));
        joining_keeps_every_text(front + less, back.last(), mark);
        assert(back =~= less.push(back.last()));
        joining_keeps_every_text(less, back.last(), mark);
        assert(joined(all, mark) =~= joined(front, mark) + mark + joined(back, mark));
    }
}

/// Texts in a row lose nothing: one more stands directly behind all the others, and the whole
/// is as long as the texts together.
pub proof fn a_row_keeps_every_text(texts: Seq<Seq<char>>, text: Seq<char>)
    ensures
        in_a_row(Seq::empty()) == Seq::<char>::empty(),
        in_a_row(texts.push(text)) == in_a_row(texts) + text,
        in_a_row(texts).len() == total_len(texts),
    decreases texts.len(),
{
    assert(texts.push(text).drop_last() =~= texts);
    if texts.len() > 0 {
        let front = texts.drop_last();
        a_row_keeps_every_text(front, texts.last());
        assert(front.push(texts.last()) =~= texts);
        total_len_grows(front, texts.last());
    }
}

} // verus!
