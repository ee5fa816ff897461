//! Building the pieces of text that requests and links are made of.

use vstd::prelude::*;
use vstd::string::{StrSliceExecFns, StringExecFns};

verus! {

/// The character that stands for a value below ten.
pub open spec fn digit(value: int) -> char {
    if value == 0 {
        '0'
    } else if value == 1 {
        '1'
    } else if value == 2 {
        '2'
    } else if value == 3 {
        '3'
    } else if value == 4 {
        '4'
    } else if value == 5 {
        '5'
    } else if value == 6 {
        '6'
    } else if value == 7 {
        '7'
    } else if value == 8 {
        '8'
    } else {
        '9'
    }
}

/// The decimal digits of a natural number, most significant first, without
/// leading zeros.
pub open spec fn decimal_digits(number: nat) -> Seq<char>
    decreases number,
{
    if number < 10 {
        seq![digit(number as int)]
    } else {
        decimal_digits(number / 10).push(digit((number % 10) as int))
    }
}

/// The decimal notation of an integer: a minus sign where it is negative,
/// then the digits of its magnitude.
pub open spec fn decimal(number: int) -> Seq<char> {
    if number < 0 {
        seq!['-'] + decimal_digits((-number) as nat)
    } else {
        decimal_digits(number as nat)
    }
}

fn digit_text(value: u64) -> (text: &'static str)
    requires
        value < 10,
    ensures
        text@ == seq![digit(value as int)],
{
    proof {
        reveal_strlit("0");
        reveal_strlit("1");
        reveal_strlit("2");
        reveal_strlit("3");
        reveal_strlit("4");
        reveal_strlit("5");
        reveal_strlit("6");
        reveal_strlit("7");
        reveal_strlit("8");
        reveal_strlit("9");
    }
    let text = if value == 0 {
        "0"
    } else if value == 1 {
        "1"
    } else if value == 2 {
        "2"
    } else if value == 3 {
        "3"
    } else if value == 4 {
        "4"
    } else if value == 5 {
        "5"
    } else if value == 6 {
        "6"
    } else if value == 7 {
        "7"
    } else if value == 8 {
        "8"
    } else {
        "9"
    };
    assert(text@ =~= seq![digit(value as int)]);
    text
}

fn append_decimal_digits(text: &mut String, number: u64)
    ensures
        final(text)@ == old(text)@ + decimal_digits(number as nat),
    decreases number,
{
    if number >= 10 {
        append_decimal_digits(text, number / 10);
    }
    text.append(digit_text(number % 10));
    assert(final(text)@ =~= old(text)@ + decimal_digits(number as nat));
}

/// Appends the decimal notation of `number` to `text`.
pub fn append_decimal(text: &mut String, number: i32)
    ensures
        final(text)@ == old(text)@ + decimal(number as int),
{
    if number < 0 {
        proof {
            reveal_strlit("-");
        }
        text.append("-");
        let magnitude: i64 = -(number as i64);
        append_decimal_digits(text, magnitude as u64);
        assert(final(text)@ =~= old(text)@ + decimal(number as int));
    } else {
        append_decimal_digits(text, number as u64);
    }
}

/// The decimal notation of `number`.
pub fn decimal_text(number: i32) -> (text: String)
    ensures
        text@ == decimal(number as int),
{
    let mut text = String::new();
    append_decimal(&mut text, number);
    assert(text@ =~= decimal(number as int));
    text
}

/// Whether two texts are made of the same characters.
pub fn same_text(first: &str, second: &str) -> (same: bool)
    ensures
        same == (first@ == second@),
{
    String::from_str(first) == String::from_str(second)
}

/// How many characters of a text stand before the first `mark` in it: all
/// of them where the text holds no `mark`.
pub open spec fn length_before(text: Seq<char>, mark: char) -> nat
    decreases text.len(),
{
    if text.len() == 0 || text[0] == mark {
        0
    } else {
        1 + length_before(text.drop_first(), mark)
    }
}

/// What stands in a text before the first `mark`: the whole text where it
/// holds no `mark`.
pub open spec fn before(text: Seq<char>, mark: char) -> Seq<char> {
    text.take(length_before(text, mark) as int)
}

/// Whether `at` is the place of the first `mark` in a text, or its length
/// where the text holds no `mark`.
pub open spec fn is_first_mark(text: Seq<char>, mark: char, at: int) -> bool {
    &&& 0 <= at <= text.len()
    &&& forall|i: int| 0 <= i < at ==> text[i] != mark
    &&& at < text.len() ==> text[at] == mark
}

/// The place of the first `mark` is the one place before which no `mark`
/// stands and at which one does, where the text holds any.
pub proof fn lemma_length_before(text: Seq<char>, mark: char, at: int)
    ensures
        is_first_mark(text, mark, length_before(text, mark) as int),
        is_first_mark(text, mark, at) ==> at == length_before(text, mark),
    decreases text.len(),
{
    if text.len() == 0 || text[0] == mark {
        if is_first_mark(text, mark, at) && at > 0 {
            assert(text[0] != mark);
        }
    } else {
        let rest = text.drop_first();
        lemma_length_before(rest, mark, at - 1);
        let found = length_before(rest, mark) as int;
        assert forall|i: int| 0 <= i < found + 1 implies text[i] != mark by {
            if i > 0 {
                assert(rest[i - 1] == text[i]);
            }
        }
        if found + 1 < text.len() {
            assert(rest[found] == text[found + 1]);
        }
        if is_first_mark(text, mark, at) {
            assert(at > 0);
            assert forall|i: int| 0 <= i < at - 1 implies rest[i] != mark by {
                assert(rest[i] == text[i + 1]);
            }
            if at - 1 < rest.len() {
                assert(rest[at - 1] == text[at]);
            }
            assert(is_first_mark(rest, mark, at - 1));
        }
    }
}

/// What stands before a `mark` that follows a text without one is that
/// text.
pub proof fn lemma_before_joined(head: Seq<char>, mark: char, tail: Seq<char>)
    requires
        !head.contains(mark),
    ensures
        before(head + seq![mark] + tail, mark) == head,
{
    let text = head + seq![mark] + tail;
    assert forall|i: int| 0 <= i < head.len() implies text[i] != mark by {
        assert(text[i] == head[i]);
        assert(head.contains(head[i]));
    }
    assert(text[head.len() as int] == mark);
    assert(is_first_mark(text, mark, head.len() as int));
    lemma_length_before(text, mark, head.len() as int);
    assert(text.take(head.len() as int) =~= head);
}

/// What stands in `text` before the first `mark`.
pub fn text_before(text: &str, mark: char) -> (head: String)
    ensures
        head@ == before(text@, mark),
{
    let len = text.unicode_len();
    let mut at: usize = 0;
    while at < len && text.get_char(at) != mark
        invariant
            len == text@.len(),
            at <= len,
            forall|i: int| 0 <= i < at ==> text@[i] != mark,
        decreases len - at,
    {
        at += 1;
    }
    proof {
        assert(is_first_mark(text@, mark, at as int));
        lemma_length_before(text@, mark, at as int);
    }
    String::from_str(text.substring_char(0, at))
}

} // verus!
