//! Laws of texts: what the lines of a text are, which texts write a number, and what a text
//! contains.
use crate::text::{
    all_digits, contains_text, decimal, digits_value, is_digit, is_first_char, lemma_decimal_digits,
    lemma_first_char, lines, occurs_at, parse_unsigned, unsigned_digits,
};
use vstd::prelude::*;

verus! {

/// The end of a line: a line feed, or a carriage return and a line feed.
pub open spec fn line_end(crlf: bool) -> Seq<char> {
    if crlf {
        seq!['\r', '\n']
    } else {
        seq!['\n']
    }
}

/// The text can stand before this line end as a line of its own: it holds no line feed, and a
/// carriage return before a line feed would belong to the line end.
pub open spec fn is_line(text: Seq<char>, crlf: bool) -> bool {
    &&& !text.contains('\n')
    &&& !crlf && text.len() > 0 ==> text.last() != '\r'
}

/// A text that begins with a line and its end has that line, and behind it the lines of the rest.
pub proof fn law_lines_end_at_line_feeds(line: Seq<char>, crlf: bool, rest: Seq<char>)
    requires
        is_line(line, crlf),
    ensures
        lines(line + line_end(crlf) + rest) == seq![line] + lines(rest),
{
    let text = line + line_end(crlf) + rest;
    let i: int = line.len() + line_end(crlf).len() - 1;
    assert(text[i] == '\n');
    assert forall|j: int| 0 <= j < i implies text[j] != '\n' by {
        if j < line.len() {
            assert(line.contains(line[j]));
            assert(text[j] == line[j]);
        }
    }
    assert(is_first_char(text, '\n', i));
    lemma_first_char(text, '\n', i);
    assert(text.skip(i + 1) =~= rest);
    if crlf {
        assert(text.take(i) =~= line.push('\r'));
        assert(line.push('\r').drop_last() =~= line);
    } else {
        assert(text.take(i) =~= line);
    }
}

/// A text without a line feed is one line as it stands, or none where it is empty.
pub proof fn law_the_last_line_may_be_open(text: Seq<char>)
    requires
        !text.contains('\n'),
    ensures
        text.len() > 0 ==> lines(text) == seq![text],
        text.len() == 0 ==> lines(text).len() == 0,
{
    if text.len() > 0 {
        assert forall|i: int| !is_first_char(text, '\n', i) by {
            if 0 <= i < text.len() {
                assert(text.contains(text[i]));
            }
        }
    }
}

/// As many zeros.
pub open spec fn zeros(count: nat) -> Seq<char> {
    Seq::new(count, |i: int| '0')
}

/// A number as it may be written: perhaps a plus sign, any zeros, and the digits of `n`.
pub open spec fn number_text(plus: bool, leading: nat, n: nat) -> Seq<char> {
    (if plus {
        seq!['+']
    } else {
        seq![]
    }) + zeros(leading) + decimal(n)
}

/// The digits of a number below ten are the one character for it; those of a larger one are the
/// digits of its tenth, and behind them the character for the rest.
pub proof fn law_decimal_digits(tens: nat, ones: nat)
    requires
        ones < 10,
    ensures
        tens == 0 ==> decimal(ones).len() == 1 && decimal(ones)[0] as nat == 48 + ones,
        tens > 0 ==> {
            let text = decimal(10 * tens + ones);
            &&& text.len() == decimal(tens).len() + 1
            &&& text.drop_last() == decimal(tens)
            &&& text.last() as nat == 48 + ones
        },
{
    if tens > 0 {
        let n = (10 * tens + ones) as nat;
        assert(n / 10 == tens && n % 10 == ones);
        assert(decimal(n).drop_last() =~= decimal(tens));
    }
}

proof fn lemma_zeros_value(count: nat)
    ensures
        digits_value(zeros(count)) == 0,
    decreases count,
{
    if count > 0 {
        assert(zeros(count).drop_last() =~= zeros((count - 1) as nat));
        lemma_zeros_value((count - 1) as nat);
    }
}

proof fn lemma_leading_zeros(count: nat, digits: Seq<char>)
    ensures
        digits_value(zeros(count) + digits) == digits_value(digits),
    decreases digits.len(),
{
    if digits.len() == 0 {
        assert(zeros(count) + digits =~= zeros(count));
        lemma_zeros_value(count);
    } else {
        lemma_leading_zeros(count, digits.drop_last());
        assert((zeros(count) + digits).drop_last() =~= zeros(count) + digits.drop_last());
    }
}

/// Every way to write a number is read as that number, where it is not too large, and as none
/// where it is.
pub proof fn law_numbers_are_read(plus: bool, leading: nat, n: nat, max: nat)
    ensures
        n <= max ==> parse_unsigned(number_text(plus, leading, n), max) == Some(n),
        n > max ==> parse_unsigned(number_text(plus, leading, n), max) is None,
{
    let digits = zeros(leading) + decimal(n);
    lemma_decimal_digits(n);
    lemma_leading_zeros(leading, decimal(n));
    assert(all_digits(digits)) by {
        assert forall|i: int| 0 <= i < digits.len() implies is_digit(#[trigger] digits[i]) by {
            if i >= leading {
                assert(is_digit(decimal(n)[i - leading]));
            }
        }
    }
    let text = number_text(plus, leading, n);
    if plus {
        assert(text.skip(1) =~= digits);
    } else {
        assert(is_digit(digits[0]));
        assert(text =~= digits);
    }
    assert(unsigned_digits(text) == digits);
}

/// A text is no number where it is empty or a plus sign alone, and where it holds a character other
/// than a digit, but for a plus sign in front.
pub proof fn law_other_texts_are_no_numbers(text: Seq<char>, max: nat)
    requires
        text.len() == 0 || text == seq!['+'] || exists|i: int|
            0 <= i < text.len() && !('0' <= #[trigger] text[i] <= '9') && !(i == 0 && text[i] == '+'),
    ensures
        parse_unsigned(text, max) is None,
{
    let digits = unsigned_digits(text);
    if text.len() > 0 && text != seq!['+'] {
        let i = choose|i: int|
            0 <= i < text.len() && !('0' <= #[trigger] text[i] <= '9') && !(i == 0 && text[i] == '+');
        if text[0] == '+' {
            assert(digits[i - 1] == text[i]);
            assert(!is_digit(digits[i - 1]));
        } else {
            assert(!is_digit(digits[i]));
        }
    }
}

/// Whatever digits a text is made of, it writes a number: zeros and the digits of the number.
pub proof fn law_digits_write_a_number(text: Seq<char>)
    requires
        text.len() > 0,
        forall|i: int| 0 <= i < text.len() ==> '0' <= #[trigger] text[i] <= '9',
    ensures
        exists|leading: nat, n: nat| text == #[trigger] number_text(false, leading, n),
    decreases text.len(),
{
    let last = text[text.len() - 1];
    let ones = (last as nat - 48) as nat;
    law_decimal_digits(0, ones);
    assert(decimal(ones) =~= seq![last]);
    if text.len() == 1 {
        assert(text =~= number_text(false, 0, ones));
    } else {
        let front = text.drop_last();
        law_digits_write_a_number(front);
        let (leading, tens) = choose|leading: nat, n: nat|
            front == #[trigger] number_text(false, leading, n);
        if tens == 0 {
            law_decimal_digits(0, 0);
            assert(decimal(0) =~= seq!['0']);
            assert(zeros(leading) + seq!['0'] =~= zeros(leading + 1));
            assert(text =~= front.push(last));
            assert(text =~= number_text(false, leading + 1, ones));
        } else {
            law_decimal_digits(tens, ones);
            let n = (10 * tens + ones) as nat;
            assert(decimal(n) =~= decimal(tens).push(last));
            assert(text =~= front.push(last));
            assert(text =~= number_text(false, leading, n));
        }
    }
}

/// A text contains each of its parts.
pub proof fn law_texts_contain_their_parts(before: Seq<char>, part: Seq<char>, behind: Seq<char>)
    ensures
        contains_text(before + part + behind, part),
{
    let text = before + part + behind;
    assert(text.subrange(before.len() as int, (before.len() + part.len()) as int) =~= part);
    assert(occurs_at(text, part, before.len() as int));
}

/// What a text contains is a part of it.
pub proof fn law_what_is_contained_is_a_part(text: Seq<char>, part: Seq<char>)
    requires
        contains_text(text, part),
    ensures
        exists|before: Seq<char>, behind: Seq<char>| text == #[trigger] (before + part + behind),
{
    let i = choose|i: int| occurs_at(text, part, i);
    let before = text.take(i);
    let behind = text.skip(i + part.len());
    assert(text =~= before + part + behind);
}

} // verus!
