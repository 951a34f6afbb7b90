//! What written numbers and trimmed texts promise.

use vstd::prelude::*;

use crate::text::{decimal, is_space, trimmed, trimmed_end, trimmed_start};

verus! {

/// The number that a text of digits stands for.
pub open spec fn number_of(digits: Seq<char>) -> int
    decreases digits.len(),
{
    if digits.len() == 0 {
        0
    } else {
        10 * number_of(digits.drop_last()) + (digits.last() as int - '0' as int)
    }
}

/// A number is written with digits, stands for itself, and does not begin with
/// a zero unless it is zero.
pub proof fn law_numbers_are_written_in_decimal(n: nat)
    ensures
        decimal(n).len() > 0,
        number_of(decimal(n)) == n,
        forall|i: int| 0 <= i < decimal(n).len() ==> '0' <= #[trigger] decimal(n)[i] <= '9',
        n > 0 ==> decimal(n)[0] != '0',
        n == 0 ==> decimal(n).len() == 1,
    decreases n,
{
    reveal_with_fuel(number_of, 2);
    if n >= 10 {
        law_numbers_are_written_in_decimal(n / 10);
        assert(decimal(n).drop_last() =~= decimal(n / 10));
    } else {
        assert(decimal(n).drop_last() =~= Seq::<char>::empty());
    }
}

/// Blanks, tabs and ends of lines are spaces; letters, digits and signs are not.
pub proof fn law_spaces(character: char)
    requires
        (character as u32) < 128,
    ensures
        is_space(character) <==> character == ' ' || character == '\t' || character == '\n'
            || character == '\r' || character as u32 == 11 || character as u32 == 12,
{
}

/// A trimmed text is what lies between the spaces at both ends: nothing inside
/// it is lost, and neither end of it is a space.
pub proof fn law_trimming(text: Seq<char>, from: int, to: int)
    requires
        0 <= from <= to <= text.len(),
        forall|i: int| 0 <= i < from ==> is_space(#[trigger] text[i]),
        forall|i: int| to <= i < text.len() ==> is_space(#[trigger] text[i]),
        from < to ==> !is_space(text[from]) && !is_space(text[to - 1]),
        from == to ==> from == text.len(),
    ensures
        trimmed(text) == text.subrange(from, to),
{
    lemma_start(text, from);
    let rest = text.skip(from);
    assert forall|i: int| to - from <= i < rest.len() implies is_space(#[trigger] rest[i]) by {
        assert(rest[i] == text[from + i]);
    }
    if from < to {
        assert(rest[to - from - 1] == text[to - 1]);
    }
    lemma_end(rest, to - from);
    assert(rest.take(to - from) =~= text.subrange(from, to));
}

proof fn lemma_start(text: Seq<char>, from: int)
    requires
        0 <= from <= text.len(),
        forall|i: int| 0 <= i < from ==> is_space(#[trigger] text[i]),
        from < text.len() ==> !is_space(text[from]),
    ensures
        trimmed_start(text) == text.skip(from),
    decreases from,
{
    if from > 0 {
        let rest = text.skip(1);
        assert forall|i: int| 0 <= i < from - 1 implies is_space(#[trigger] rest[i]) by {
            assert(rest[i] == text[i + 1]);
        }
        lemma_start(rest, from - 1);
        assert(rest.skip(from - 1) =~= text.skip(from));
    } else {
        assert(text.skip(0) =~= text);
    }
}

proof fn lemma_end(text: Seq<char>, to: int)
    requires
        0 <= to <= text.len(),
        forall|i: int| to <= i < text.len() ==> is_space(#[trigger] text[i]),
        to > 0 ==> !is_space(text[to - 1]),
    ensures
        trimmed_end(text) == text.take(to),
    decreases text.len(),
{
    if to < text.len() {
        let rest = text.drop_last();
        lemma_end(rest, to);
        assert(rest.take(to) =~= text.take(to));
    } else {
        assert(text.take(to) =~= text);
    }
}

} // verus!
