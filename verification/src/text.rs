//! Text as sequences of characters: taking strings apart and putting them together.

use vstd::prelude::*;
use vstd::string::*;

verus! {

/// Trusted: `String::push` appends the character to the string.
pub assume_specification[ String::push ](text: &mut String, c: char)
    ensures
        final(text)@ == old(text)@.push(c),
;

/// `text` in upper case.
pub uninterp spec fn uppercase_of(text: Seq<char>) -> Seq<char>;

/// Puts `text` in upper case. Trusted: `str::to_uppercase` returns the upper
/// case equivalent of the text, the same for the same characters.
#[verifier::external_body]
pub(crate) fn to_uppercase(text: &str) -> (upper: String)
    ensures
        upper@ == uppercase_of(text@),
{
    text.to_uppercase()
}

/// `c` is white space in the sense of Unicode: one of the twenty-five
/// characters that have the property White_Space.
pub open spec fn has_white_space_property(c: char) -> bool {
    let code = c as u32;
    ||| 0x09 <= code <= 0x0d
    ||| code == 0x20
    ||| code == 0x85
    ||| code == 0xa0
    ||| code == 0x1680
    ||| 0x2000 <= code <= 0x200a
    ||| code == 0x2028
    ||| code == 0x2029
    ||| code == 0x202f
    ||| code == 0x205f
    ||| code == 0x3000
}

/// Whether `c` is white space. Trusted: `char::is_whitespace` tells whether
/// the character has the Unicode property White_Space.
#[verifier::external_body]
pub(crate) fn is_whitespace(c: char) -> (white: bool)
    ensures
        white == has_white_space_property(c),
{
    c.is_whitespace()
}

/// The characters of `text`, in order.
pub fn chars_of(text: &str) -> (chars: Vec<char>)
    ensures
        chars@ == text@,
{
    let mut chars: Vec<char> = Vec::new();
    for c in it: text.chars()
        invariant
            chars@ == it.seq().take(it.index()),
            it.seq() == text@,
    {
        chars.push(c);
        assert(chars@ =~= it.seq().take(it.index() + 1));
    }
    assert(chars@ =~= text@);
    chars
}

/// The pieces of `text` between the occurrences of `separator`, in order: one
/// more piece than there are separators, empty pieces included.
pub open spec fn split(text: Seq<char>, separator: char) -> Seq<Seq<char>>
    decreases text.len(),
{
    if text.len() == 0 {
        seq![Seq::<char>::empty()]
    } else {
        let before = split(text.drop_last(), separator);
        if text.last() == separator {
            before.push(Seq::<char>::empty())
        } else {
            before.drop_last().push(before.last().push(text.last()))
        }
    }
}

/// A split never comes out without a piece.
pub proof fn lemma_split_nonempty(text: Seq<char>, separator: char)
    ensures
        split(text, separator).len() >= 1,
    decreases text.len(),
{
    if text.len() > 0 {
        lemma_split_nonempty(text.drop_last(), separator);
    }
}

/// Takes `text` apart at each `separator`.
pub fn split_on(text: &str, separator: char) -> (pieces: Vec<String>)
    ensures
        pieces.deep_view() == split(text@, separator),
{
    let chars = chars_of(text);
    let mut pieces: Vec<String> = Vec::new();
    let mut current = String::new();
    let mut i: usize = 0;
    while i < chars.len()
        invariant
            i <= chars@.len(),
            pieces.deep_view().push(current@) == split(chars@.take(i as int), separator),
        decreases chars@.len() - i,
    {
        let ghost before = split(chars@.take(i as int), separator);
        let ghost done = pieces.deep_view();
        let c = chars[i];
        proof {
            assert(chars@.take(i + 1).drop_last() =~= chars@.take(i as int));
            assert(before.last() == current@);
            assert(before.drop_last() =~= done);
        }
        if c == separator {
            pieces.push(current);
            current = String::new();
            assert(pieces.deep_view() =~= done.push(before.last()));
        } else {
            current.push(c);
        }
        i += 1;
    }
    let ghost done = pieces.deep_view();
    pieces.push(current);
    proof {
        assert(chars@.take(chars@.len() as int) =~= chars@);
        assert(pieces.deep_view() =~= done.push(current@));
    }
    pieces
}

/// The value of a decimal digit.
pub open spec fn digit_value(c: char) -> Option<int> {
    if '0' <= c <= '9' {
        Some(c as int - '0' as int)
    } else {
        None
    }
}

/// The number that a run of decimal digits stands for.
pub open spec fn decimal_value(digits: Seq<char>) -> int
    decreases digits.len(),
{
    if digits.len() == 0 {
        0
    } else {
        10 * decimal_value(digits.drop_last()) + match digit_value(digits.last()) {
            Some(value) => value,
            None => 0,
        }
    }
}

/// Every character of `text` is a decimal digit.
pub open spec fn all_digits(text: Seq<char>) -> bool {
    forall|i: int| 0 <= i < text.len() ==> digit_value(#[trigger] text[i]) is Some
}

/// The digits of `text` end at `end`: a digit stands at every place before
/// it and none at `end` itself.
pub open spec fn is_digit_run_end(text: Seq<char>, end: int) -> bool {
    &&& 0 <= end <= text.len()
    &&& all_digits(text.take(end))
    &&& end < text.len() ==> digit_value(text[end]) is None
}

/// How many digits `text` begins with.
pub open spec fn leading_digits(text: Seq<char>) -> int {
    choose|end: int| is_digit_run_end(text, end)
}

/// A text has one place at which its leading digits end.
pub proof fn lemma_digit_run_end_unique(text: Seq<char>, end: int)
    requires
        is_digit_run_end(text, end),
    ensures
        leading_digits(text) == end,
{
    let other = leading_digits(text);
    assert(is_digit_run_end(text, other));
    if other < end {
        assert(text.take(end)[other] == text[other]);
    }
    if end < other {
        assert(text.take(other)[end] == text[end]);
    }
}

/// A run of digits with one more digit behind it stands for ten times as
/// much and the digit: no less than without it.
pub proof fn lemma_decimal_value_grows(digits: Seq<char>)
    requires
        digits.len() > 0,
        all_digits(digits),
    ensures
        all_digits(digits.drop_last()),
        0 <= decimal_value(digits.drop_last()) <= decimal_value(digits),
        decimal_value(digits) == 10 * decimal_value(digits.drop_last()) + digit_value(
            digits.last(),
        ).unwrap(),
    decreases digits.len(),
{
    let before = digits.drop_last();
    assert forall|i: int| 0 <= i < before.len() implies digit_value(#[trigger] before[i])
        is Some by {
        assert(before[i] == digits[i]);
    }
    if before.len() > 0 {
        lemma_decimal_value_grows(before);
    }
    assert(digit_value(digits.last()) is Some);
}

/// Whether `c` is a decimal digit, and its value.
pub fn digit(c: char) -> (value: Option<u8>)
    ensures
        match digit_value(c) {
            Some(expected) => value == Some(expected as u8) && 0 <= expected <= 9,
            None => value is None,
        },
{
    if '0' <= c && c <= '9' {
        Some(((c as u32) - 0x30) as u8)
    } else {
        None
    }
}

/// The value of a hexadecimal digit, in either case.
pub open spec fn hex_digit_value(c: char) -> Option<int> {
    if '0' <= c <= '9' {
        Some(c as int - '0' as int)
    } else if 'a' <= c <= 'f' {
        Some(c as int - 'a' as int + 10)
    } else if 'A' <= c <= 'F' {
        Some(c as int - 'A' as int + 10)
    } else {
        None
    }
}

/// Reads one hexadecimal digit.
pub fn hex_digit(c: char) -> (value: Option<u8>)
    ensures
        match hex_digit_value(c) {
            Some(expected) => value == Some(expected as u8) && 0 <= expected < 16,
            None => value is None,
        },
{
    let code: u32 = c as u32;
    if '0' <= c && c <= '9' {
        Some((code - 0x30) as u8)
    } else if 'a' <= c && c <= 'f' {
        Some((code - 0x61 + 10) as u8)
    } else if 'A' <= c && c <= 'F' {
        Some((code - 0x41 + 10) as u8)
    } else {
        None
    }
}

} // verus!
