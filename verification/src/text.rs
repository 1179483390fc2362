//! Text as sequences of characters: searching, splitting into lines, and decimal numbers.
use vstd::prelude::*;
use vstd::slice::slice_subrange;

verus! {

/// `needle` stands in `s` at position `i`.
pub open spec fn occurs_at(s: Seq<char>, needle: Seq<char>, i: int) -> bool {
    &&& 0 <= i
    &&& i + needle.len() <= s.len()
    &&& s.subrange(i, i + needle.len()) == needle
}

/// `needle` stands somewhere in `s`.
pub open spec fn contains_text(s: Seq<char>, needle: Seq<char>) -> bool {
    exists|i: int| occurs_at(s, needle, i)
}

/// `i` is the least position at which `needle` stands in `s`.
pub open spec fn is_first_occurrence(s: Seq<char>, needle: Seq<char>, i: int) -> bool {
    &&& occurs_at(s, needle, i)
    &&& forall|j: int| 0 <= j < i ==> !occurs_at(s, needle, j)
}

/// The least position at which `needle` stands in `s`, if there is one.
pub open spec fn first_occurrence(s: Seq<char>, needle: Seq<char>) -> Option<int> {
    if exists|i: int| is_first_occurrence(s, needle, i) {
        Some(choose|i: int| is_first_occurrence(s, needle, i))
    } else {
        None
    }
}

/// `i` is the least position of the character `c` in `s`.
pub open spec fn is_first_char(s: Seq<char>, c: char, i: int) -> bool {
    &&& 0 <= i < s.len()
    &&& s[i] == c
    &&& forall|j: int| 0 <= j < i ==> s[j] != c
}

/// The least position of the character `c` in `s`, if there is one.
pub open spec fn first_char(s: Seq<char>, c: char) -> Option<int> {
    if exists|i: int| is_first_char(s, c, i) {
        Some(choose|i: int| is_first_char(s, c, i))
    } else {
        None
    }
}

/// A line without the carriage return that belongs to its line ending.
pub open spec fn without_carriage_return(line: Seq<char>) -> Seq<char> {
    if line.len() > 0 && line.last() == '\r' {
        line.drop_last()
    } else {
        line
    }
}

/// The lines of a text. A line ends at a line feed, or at a carriage return followed by a line
/// feed; the ending of the last line may be missing.
pub open spec fn lines(text: Seq<char>) -> Seq<Seq<char>>
    decreases text.len(),
{
    if text.len() == 0 {
        seq![]
    } else {
        match first_char(text, '\n') {
            Some(i) => seq![without_carriage_return(text.take(i))] + lines(text.skip(i + 1)),
            None => seq![text],
        }
    }
}

pub open spec fn is_digit(c: char) -> bool {
    '0' <= c <= '9'
}

pub open spec fn all_digits(s: Seq<char>) -> bool {
    forall|i: int| 0 <= i < s.len() ==> is_digit(#[trigger] s[i])
}

/// The number that a sequence of decimal digits writes.
pub open spec fn digits_value(digits: Seq<char>) -> nat
    decreases digits.len(),
{
    if digits.len() == 0 {
        0
    } else {
        digits_value(digits.drop_last()) * 10 + (digits.last() as nat - '0' as nat) as nat
    }
}

/// The text behind an optional leading plus sign.
pub open spec fn unsigned_digits(s: Seq<char>) -> Seq<char> {
    if s.len() > 0 && s[0] == '+' {
        s.skip(1)
    } else {
        s
    }
}

/// The number that `s` writes: an optional plus sign, then one or more decimal digits and nothing
/// else, with a value of at most `max`.
pub open spec fn parse_unsigned(s: Seq<char>, max: nat) -> Option<nat> {
    let digits = unsigned_digits(s);
    if digits.len() > 0 && all_digits(digits) && digits_value(digits) <= max {
        Some(digits_value(digits))
    } else {
        None
    }
}

pub open spec fn digit_char(d: nat) -> char {
    ('0' as nat + d) as char
}

/// The decimal digits of `n`, without leading zeros.
pub open spec fn decimal(n: nat) -> Seq<char>
    decreases n,
{
    if n < 10 {
        seq![digit_char(n)]
    } else {
        decimal(n / 10).push(digit_char(n % 10))
    }
}

/// `c` with an upper-case ASCII letter made lower-case.
pub open spec fn ascii_lower(c: char) -> char {
    if 'A' <= c <= 'Z' {
        (c as u32 + 32) as char
    } else {
        c
    }
}

pub open spec fn ascii_lower_text(s: Seq<char>) -> Seq<char> {
    s.map_values(|c: char| ascii_lower(c))
}

/// A position found by a search is the position that `first_occurrence` names.
pub proof fn lemma_first_occurrence(s: Seq<char>, needle: Seq<char>, i: int)
    requires
        is_first_occurrence(s, needle, i),
    ensures
        first_occurrence(s, needle) == Some(i),
        contains_text(s, needle),
{
    let k = choose|k: int| is_first_occurrence(s, needle, k);
    assert(is_first_occurrence(s, needle, k));
    if k < i {
        assert(!occurs_at(s, needle, k));
    } else if i < k {
        assert(!occurs_at(s, needle, i));
    }
}

/// A position found by a search is the position that `first_char` names.
pub proof fn lemma_first_char(s: Seq<char>, c: char, i: int)
    requires
        is_first_char(s, c, i),
    ensures
        first_char(s, c) == Some(i),
{
    let k = choose|k: int| is_first_char(s, c, k);
    assert(is_first_char(s, c, k));
    if k < i {
        assert(s[k] != c);
    } else if i < k {
        assert(s[i] != c);
    }
}

/// More digits never make the number smaller.
proof fn lemma_digits_value_prefix(digits: Seq<char>, k: int)
    requires
        0 <= k <= digits.len(),
    ensures
        digits_value(digits.take(k)) <= digits_value(digits),
    decreases digits.len(),
{
    if k == digits.len() {
        assert(digits.take(k) =~= digits);
    } else {
        lemma_digits_value_prefix(digits.drop_last(), k);
        assert(digits.drop_last().take(k) =~= digits.take(k));
    }
}

/// Reading the decimal digits of a number gives the number back.
pub proof fn law_decimal_reads_back(n: nat, max: nat)
    requires
        n <= max,
    ensures
        parse_unsigned(decimal(n), max) == Some(n),
{
    lemma_decimal_digits(n);
    assert(decimal(n)[0] != '+') by {
        assert(is_digit(decimal(n)[0]));
    }
}

/// Different numbers have different decimal digits.
pub proof fn law_decimal_is_injective(m: nat, n: nat)
    requires
        decimal(m) == decimal(n),
    ensures
        m == n,
{
    lemma_decimal_digits(m);
    lemma_decimal_digits(n);
}

pub proof fn lemma_decimal_digits(n: nat)
    ensures
        decimal(n).len() > 0,
        all_digits(decimal(n)),
        digits_value(decimal(n)) == n,
    decreases n,
{
    if n < 10 {
        assert(decimal(n).drop_last() =~= Seq::<char>::empty());
        assert(digits_value(Seq::<char>::empty()) == 0);
    } else {
        lemma_decimal_digits(n / 10);
        let front = decimal(n / 10);
        assert(decimal(n).drop_last() =~= front);
        assert forall|i: int| 0 <= i < decimal(n).len() implies is_digit(#[trigger] decimal(n)[i]) by {
            if i < front.len() {
                assert(is_digit(front[i]));
                assert(decimal(n)[i] == front[i]);
            }
        }
    }
}

/// The characters of a text.
pub(crate) fn chars_of(text: &str) -> (chars: Vec<char>)
    ensures
        chars@ == text@,
{
    let mut chars: Vec<char> = Vec::new();
    for c in it: text.chars()
        invariant
            chars@ == it.seq().take(it.index()),
            it.seq() == text@,
    {
        chars.push(c);
    }
    chars
}

/// Whether `prefix` stands at the start of `s`.
pub(crate) fn starts_with(s: &[char], prefix: &str) -> (found: bool)
    ensures
        found == prefix@.is_prefix_of(s@),
{
    let prefix_chars: Vec<char> = chars_of(prefix);
    occurs(s, 0, prefix_chars.as_slice())
}

/// Whether `needle` stands in `s` at position `i`.
pub(crate) fn occurs(s: &[char], i: usize, needle: &[char]) -> (found: bool)
    requires
        i <= s@.len(),
    ensures
        found == occurs_at(s@, needle@, i as int),
{
    let length: usize = s.len();
    if needle.len() > length - i {
        return false;
    }
    let mut k: usize = 0;
    while k < needle.len()
        invariant
            k <= needle@.len(),
            length == s@.len(),
            i + needle@.len() <= s@.len(),
            forall|j: int| 0 <= j < k ==> s@[i + j] == needle@[j],
        decreases needle@.len() - k,
    {
        if s[i + k] != needle[k] {
            proof {
                assert(s@.subrange(i as int, i + needle@.len())[k as int] != needle@[k as int]);
            }
            return false;
        }
        k = k + 1;
    }
    assert(s@.subrange(i as int, i + needle@.len()) =~= needle@);
    true
}

/// Where `needle` first stands in `s`.
pub(crate) fn find_text(s: &[char], needle: &str) -> (position: Option<usize>)
    ensures
        match position {
            Some(i) => first_occurrence(s@, needle@) == Some(i as int),
            None => first_occurrence(s@, needle@) is None,
        },
        position is Some <==> contains_text(s@, needle@),
        position matches Some(i) ==> i + needle@.len() <= s@.len(),
{
    let needle_chars: Vec<char> = chars_of(needle);
    let mut i: usize = 0;
    while i < s.len()
        invariant
            i <= s@.len(),
            needle_chars@ == needle@,
            forall|j: int| 0 <= j < i ==> !occurs_at(s@, needle@, j),
        decreases s@.len() - i,
    {
        if occurs(s, i, needle_chars.as_slice()) {
            proof {
                lemma_first_occurrence(s@, needle@, i as int);
            }
            return Some(i);
        }
        i = i + 1;
    }
    if occurs(s, i, needle_chars.as_slice()) {
        proof {
            lemma_first_occurrence(s@, needle@, i as int);
        }
        return Some(i);
    }
    assert forall|j: int| !occurs_at(s@, needle@, j) by {
        if j > i {
            assert(j + needle@.len() > s@.len());
        }
    }
    None
}

/// Where `c` first stands in `s`.
pub(crate) fn find_char(s: &[char], c: char) -> (position: Option<usize>)
    ensures
        match position {
            Some(i) => first_char(s@, c) == Some(i as int) && i < s@.len() && is_first_char(s@, c, i as int),
            None => first_char(s@, c) is None && !s@.contains(c),
        },
{
    let mut i: usize = 0;
    while i < s.len()
        invariant
            i <= s@.len(),
            forall|j: int| 0 <= j < i ==> s@[j] != c,
        decreases s@.len() - i,
    {
        if s[i] == c {
            proof {
                lemma_first_char(s@, c, i as int);
            }
            return Some(i);
        }
        i = i + 1;
    }
    None
}

/// Whether `needle` stands somewhere in `text`.
pub(crate) fn text_contains(text: &str, needle: &str) -> (found: bool)
    ensures
        found == contains_text(text@, needle@),
{
    let chars: Vec<char> = chars_of(text);
    find_text(chars.as_slice(), needle).is_some()
}

/// Whether `needle` stands somewhere in `text` once its ASCII letters are made lower-case.
pub(crate) fn lower_text_contains(text: &str, needle: &str) -> (found: bool)
    ensures
        found == contains_text(ascii_lower_text(text@), needle@),
{
    let chars: Vec<char> = chars_of(text);
    let mut lower: Vec<char> = Vec::new();
    let mut i: usize = 0;
    while i < chars.len()
        invariant
            i <= chars@.len(),
            lower@ == ascii_lower_text(chars@.take(i as int)),
        decreases chars@.len() - i,
    {
        let c: char = chars[i];
        let low: char = if 'A' <= c && c <= 'Z' {
            (c as u8 + 32) as char
        } else {
            c
        };
        lower.push(low);
        i = i + 1;
        assert(lower@ =~= ascii_lower_text(chars@.take(i as int)));
    }
    assert(chars@.take(i as int) =~= chars@);
    find_text(lower.as_slice(), needle).is_some()
}

/// The first and one past the last position of each line of `text`.
pub(crate) fn line_ranges(text: &[char]) -> (ranges: Vec<(usize, usize)>)
    ensures
        ranges@.len() == lines(text@).len(),
        forall|k: int|
            0 <= k < ranges@.len() ==> {
                &&& (#[trigger] ranges@[k]).0 <= ranges@[k].1 <= text@.len()
                &&& text@.subrange(ranges@[k].0 as int, ranges@[k].1 as int) == lines(text@)[k]
            },
{
    let mut ranges: Vec<(usize, usize)> = Vec::new();
    let ghost mut done: Seq<Seq<char>> = seq![];
    let mut start: usize = 0;
    assert(text@.skip(0) =~= text@);
    assert(done + lines(text@.skip(0)) =~= lines(text@));
    while start < text.len()
        invariant
            start <= text@.len(),
            done + lines(text@.skip(start as int)) == lines(text@),
            ranges@.len() == done.len(),
            forall|k: int|
                0 <= k < ranges@.len() ==> {
                    &&& (#[trigger] ranges@[k]).0 <= ranges@[k].1 <= text@.len()
                    &&& text@.subrange(ranges@[k].0 as int, ranges@[k].1 as int) == done[k]
                },
        decreases text@.len() - start,
    {
        let rest: &[char] = slice_subrange(text, start, text.len());
        assert(rest@ =~= text@.skip(start as int));
        match find_char(rest, '\n') {
            Some(i) => {
                let end: usize = start + i;
                let ghost line = without_carriage_return(rest@.take(i as int));
                let stop: usize = if i > 0 && rest[i - 1] == '\r' {
                    end - 1
                } else {
                    end
                };
                assert(text@.subrange(start as int, stop as int) =~= line);
                ranges.push((start, stop));
                start = end + 1;
                proof {
                    assert(rest@.skip(i + 1) =~= text@.skip(start as int));
                    let tail = lines(text@.skip(start as int));
                    assert(lines(rest@) == seq![line] + tail);
                    assert(done + (seq![line] + tail) =~= done.push(line) + tail);
                    done = done.push(line);
                }
            },
            None => {
                ranges.push((start, text.len()));
                start = text.len();
                proof {
                    assert(lines(rest@) == seq![rest@]);
                    assert(text@.skip(start as int) =~= Seq::<char>::empty());
                    assert(done + seq![rest@] =~= done.push(rest@) + lines(Seq::<char>::empty()));
                    done = done.push(rest@);
                }
            },
        }
    }
    proof {
        assert(text@.skip(start as int) =~= Seq::<char>::empty());
        assert(done + lines(Seq::<char>::empty()) =~= done);
    }
    ranges
}

/// Reads an unsigned decimal number of at most `max`.
pub(crate) fn read_unsigned(s: &[char], max: u64) -> (number: Option<u64>)
    ensures
        match number {
            Some(n) => parse_unsigned(s@, max as nat) == Some(n as nat),
            None => parse_unsigned(s@, max as nat) is None,
        },
{
    let from: usize = if s.len() > 0 && s[0] == '+' {
        1
    } else {
        0
    };
    if from == s.len() {
        return None;
    }
    let ghost digits = unsigned_digits(s@);
    assert(digits =~= s@.skip(from as int));
    let mut value: u64 = 0;
    let mut i: usize = from;
    assert(digits.take(0) =~= Seq::<char>::empty());
    while i < s.len()
        invariant
            from <= i <= s@.len(),
            digits == s@.skip(from as int),
            digits == unsigned_digits(s@),
            value == digits_value(digits.take(i - from)),
            value <= max,
            forall|j: int| 0 <= j < i - from ==> is_digit(#[trigger] digits[j]),
        decreases s@.len() - i,
    {
        let c: char = s[i];
        assert(c == digits[i - from]);
        if c < '0' || c > '9' {
            assert(!is_digit(digits[i - from]));
            return None;
        }
        let d: u64 = c as u64 - '0' as u64;
        assert(digits.take(i - from + 1).drop_last() =~= digits.take(i - from));
        proof {
            lemma_digits_value_prefix(digits, i - from + 1);
        }
        if d > max || value > max / 10 || value * 10 > max - d {
            return None;
        }
        value = value * 10 + d;
        i = i + 1;
    }
    assert(digits.take(i - from) =~= digits);
    Some(value)
}

/// The text of a single decimal digit.
fn digit_text(d: u64) -> (text: &'static str)
    requires
        d < 10,
    ensures
        text@ == seq![digit_char(d as nat)],
{
    proof {
        reveal_strlit("0");
        reveal_strlit("1");
        reveal_strlit("2");
        reveal_strlit("3");
        reveal_strlit("4");
        reveal_strlit("5");
        reveal_strlit("6");
        reveal_strlit("7");
        reveal_strlit("8");
        reveal_strlit("9");
    }
    match d {
        0 => "0",
        1 => "1",
        2 => "2",
        3 => "3",
        4 => "4",
        5 => "5",
        6 => "6",
        7 => "7",
        8 => "8",
        _ => "9",
    }
}

/// Appends the decimal digits of `n` to `out`.
pub(crate) fn push_decimal(out: &mut String, n: u64)
    ensures
        final(out)@ == old(out)@ + decimal(n as nat),
    decreases n,
{
    if n >= 10 {
        push_decimal(out, n / 10);
    }
    out.append(digit_text(n % 10));
    assert(out@ =~= old(out)@ + decimal(n as nat));
}

} // verus!
