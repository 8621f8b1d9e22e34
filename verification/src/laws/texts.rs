//! Laws of searching and writing text.

use crate::text;
use vstd::prelude::*;

verus! {

/// A pattern stands at a place exactly where each of its characters does.
pub proof fn law_occurs_character_by_character(line: Seq<char>, pattern: Seq<char>, at: int)
    ensures
        text::occurs_at(line, pattern, at) <==> {
            &&& 0 <= at
            &&& at + pattern.len() <= line.len()
            &&& forall|j: int| 0 <= j < pattern.len() ==> line[at + j] == #[trigger] pattern[j]
        },
{
    if 0 <= at && at + pattern.len() <= line.len() {
        let part = line.subrange(at, at + pattern.len());
        if part == pattern {
            assert forall|j: int| 0 <= j < pattern.len() implies line[at + j]
                == #[trigger] pattern[j] by {
                assert(part[j] == line[at + j]);
            }
        }
        if forall|j: int| 0 <= j < pattern.len() ==> line[at + j] == #[trigger] pattern[j] {
            assert(part =~= pattern);
        }
    }
}

/// A line begins with a pattern exactly where the pattern is a prefix of it.
pub proof fn law_begins_with_prefix(line: Seq<char>, pattern: Seq<char>)
    ensures
        text::occurs_at(line, pattern, 0) <==> pattern.is_prefix_of(line),
{
    if pattern.len() <= line.len() {
        assert(line.subrange(0, 0 + pattern.len() as int) == line.subrange(
            0,
            pattern.len() as int,
        ));
    }
}

/// Whatever stands before and after a pattern, it is found.
pub proof fn law_surrounded_pattern_is_found(
    before: Seq<char>,
    pattern: Seq<char>,
    after: Seq<char>,
)
    ensures
        text::occurs_in(before + pattern + after, pattern),
{
    let line = before + pattern + after;
    let at = before.len() as int;
    assert(line.subrange(at, at + pattern.len()) =~= pattern);
    assert(text::occurs_at(line, pattern, at));
}

/// A pattern that is found splits the line into what stands before it, itself
/// and what stands after it.
pub proof fn law_found_pattern_splits_the_line(line: Seq<char>, pattern: Seq<char>)
    requires
        text::occurs_in(line, pattern),
    ensures
        exists|at: int|
            0 <= at && at + pattern.len() <= line.len() && #[trigger] line.take(at) + pattern
                + line.skip(at + pattern.len()) == line,
{
    let at = choose|at: int| text::occurs_at(line, pattern, at);
    law_occurs_character_by_character(line, pattern, at);
    assert(line.take(at) + pattern + line.skip(at + pattern.len()) =~= line);
}

/// The characters of a list of strings are those of each string, in order.
pub proof fn law_views_are_those_of_the_strings(list: Seq<String>)
    ensures
        text::views(list).len() == list.len(),
        forall|i: int| 0 <= i < list.len() ==> #[trigger] text::views(list)[i] == list[i]@,
{
}

/// One part joined is the part itself, and no part joined is nothing.
pub proof fn law_join_of_few(part: Seq<char>, separator: Seq<char>)
    ensures
        text::joined(Seq::empty(), separator) == Seq::<char>::empty(),
        text::joined(seq![part], separator) == part,
{
}

/// Two lists joined together have the separator between them, and nothing else.
pub proof fn law_join_of_two_lists(
    left: Seq<Seq<char>>,
    right: Seq<Seq<char>>,
    separator: Seq<char>,
)
    requires
        left.len() > 0,
        right.len() > 0,
    ensures
        text::joined(left + right, separator) == text::joined(left, separator) + separator
            + text::joined(right, separator),
    decreases right.len(),
{
    let both = left + right;
    assert(both.last() == right.last());
    assert(both.drop_last() =~= left + right.drop_last());
    if right.len() == 1 {
        assert(left + right.drop_last() =~= left);
    } else {
        law_join_of_two_lists(left, right.drop_last(), separator);
        let head = text::joined(left, separator);
        let tail = text::joined(right.drop_last(), separator);
        assert((head + separator + tail) + separator + right.last() =~= head + separator + (tail
            + separator + right.last()));
    }
}

/// A part repeated has as many characters as there are repetitions of it, and
/// its characters come round again and again.
pub proof fn law_repetition(part: Seq<char>, times: nat)
    ensures
        text::repeated(part, times).len() == times * part.len(),
        text::repeated(part, times + 1) == part + text::repeated(part, times),
        text::repeated(part, 0) == Seq::<char>::empty(),
    decreases times,
{
    if times == 0 {
        assert(text::repeated(part, 1) =~= text::repeated(part, 0) + part);
        assert(text::repeated(part, 1) =~= part + text::repeated(part, 0));
        assert(0 * part.len() == 0);
    } else {
        let less = (times - 1) as nat;
        law_repetition(part, less);
        assert(times * part.len() == less * part.len() + part.len()) by (nonlinear_arith)
            requires
                times == less + 1,
        ;
        assert((part + text::repeated(part, less)) + part =~= part + (text::repeated(part, less)
            + part));
    }
}

/// A digit is written as its character.
pub proof fn law_decimal_of_a_digit(value: nat, c: char)
    requires
        value < 10,
        c as int == '0' as int + value,
    ensures
        text::decimal(value) == seq![c],
{
}

/// Ten times a number and a digit is written as the number and then the digit.
pub proof fn law_decimal_is_positional(value: nat, last: nat, c: char)
    requires
        value > 0,
        last < 10,
        c as int == '0' as int + last,
    ensures
        text::decimal((10 * value + last) as nat) == text::decimal(value).push(c),
{
    let all = (10 * value + last) as nat;
    assert(all / 10 == value && all % 10 == last);
}

/// A negative number is written as its opposite behind a minus sign.
pub proof fn law_signed_decimal(value: nat)
    ensures
        text::signed_decimal(value as int) == text::decimal(value),
        value > 0 ==> text::signed_decimal(-(value as int)) == seq!['-'] + text::decimal(value),
{
    reveal_strlit("-");
    assert("-"@ =~= seq!['-']);
}

} // verus!
