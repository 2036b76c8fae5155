//! Exact text rendering of numbers and small string queries.

use vstd::prelude::*;
use vstd::string::{StrSliceExecFns, StringExecFns};

verus! {

/// The character of one digit in a base of at most sixteen.
pub open spec fn digit_char(digit: nat) -> char {
    if digit == 0 {
        '0'
    } else if digit == 1 {
        '1'
    } else if digit == 2 {
        '2'
    } else if digit == 3 {
        '3'
    } else if digit == 4 {
        '4'
    } else if digit == 5 {
        '5'
    } else if digit == 6 {
        '6'
    } else if digit == 7 {
        '7'
    } else if digit == 8 {
        '8'
    } else if digit == 9 {
        '9'
    } else if digit == 10 {
        'a'
    } else if digit == 11 {
        'b'
    } else if digit == 12 {
        'c'
    } else if digit == 13 {
        'd'
    } else if digit == 14 {
        'e'
    } else {
        'f'
    }
}

/// Positional numeral of `value` without leading zeros; zero is `"0"`.
pub open spec fn numeral(value: nat, base: nat) -> Seq<char>
    decreases value,
{
    if base < 2 || value < base {
        seq![digit_char(value)]
    } else {
        proof {
            assert(value / base < value) by (nonlinear_arith)
                requires
                    value >= base,
                    base >= 2,
            ;
        }
        numeral(value / base, base).push(digit_char(value % base))
    }
}

/// Base-ten numeral of a natural number.
pub open spec fn decimal(value: nat) -> Seq<char> {
    numeral(value, 10)
}

/// Base-ten numeral of an integer, with a minus sign below zero.
pub open spec fn signed_decimal(value: int) -> Seq<char> {
    if value < 0 {
        seq!['-'] + decimal((-value) as nat)
    } else {
        decimal(value as nat)
    }
}

/// A run of `count` zero characters.
pub open spec fn zeros(count: nat) -> Seq<char> {
    Seq::new(count, |i: int| '0')
}

/// `text` left-padded with zeros to at least `width` characters.
pub open spec fn zero_padded(text: Seq<char>, width: nat) -> Seq<char> {
    if text.len() < width {
        zeros((width - text.len()) as nat) + text
    } else {
        text
    }
}

/// Two lower-case hexadecimal characters per byte, most significant nibble first.
pub open spec fn hex_of(bytes: Seq<u8>) -> Seq<char> {
    Seq::new(
        2 * bytes.len(),
        |i: int|
            digit_char(
                (if i % 2 == 0 {
                    bytes[i / 2] / 16
                } else {
                    bytes[i / 2] % 16
                }) as nat,
            ),
    )
}

/// Renders one digit.
fn digit_text(digit: u64) -> (text: &'static str)
    requires
        digit < 16,
    ensures
        text@ == seq![digit_char(digit as nat)],
{
    proof {
        reveal_strlit("0");
        reveal_strlit("1");
        reveal_strlit("2");
        reveal_strlit("3");
        reveal_strlit("4");
        reveal_strlit("5");
        reveal_strlit("6");
        reveal_strlit("7");
        reveal_strlit("8");
        reveal_strlit("9");
        reveal_strlit("a");
        reveal_strlit("b");
        reveal_strlit("c");
        reveal_strlit("d");
        reveal_strlit("e");
        reveal_strlit("f");
    }
    if digit == 0 {
        "0"
    } else if digit == 1 {
        "1"
    } else if digit == 2 {
        "2"
    } else if digit == 3 {
        "3"
    } else if digit == 4 {
        "4"
    } else if digit == 5 {
        "5"
    } else if digit == 6 {
        "6"
    } else if digit == 7 {
        "7"
    } else if digit == 8 {
        "8"
    } else if digit == 9 {
        "9"
    } else if digit == 10 {
        "a"
    } else if digit == 11 {
        "b"
    } else if digit == 12 {
        "c"
    } else if digit == 13 {
        "d"
    } else if digit == 14 {
        "e"
    } else {
        "f"
    }
}

/// Renders `value` in a base from two to sixteen.
pub fn numeral_text(value: u128, base: u128) -> (text: String)
    requires
        2 <= base <= 16,
    ensures
        text@ == numeral(value as nat, base as nat),
    decreases value,
{
    if value < base {
        let mut text = String::new();
        text.append(digit_text(value as u64));
        assert(text@ =~= numeral(value as nat, base as nat));
        text
    } else {
        assert(value / base < value) by (nonlinear_arith)
            requires
                value >= base,
                base >= 2,
        ;
        let mut text = numeral_text(value / base, base);
        text.append(digit_text((value % base) as u64));
        assert(text@ =~= numeral(value as nat, base as nat));
        text
    }
}

/// Renders `value` in base ten.
pub fn decimal_text(value: u64) -> (text: String)
    ensures
        text@ == decimal(value as nat),
{
    numeral_text(value as u128, 10)
}

/// Renders a wide `value` in base ten.
pub fn wide_decimal_text(value: u128) -> (text: String)
    ensures
        text@ == decimal(value as nat),
{
    numeral_text(value, 10)
}

/// Renders a machine-sized `value` in base ten.
pub fn usize_text(value: usize) -> (text: String)
    ensures
        text@ == decimal(value as nat),
{
    numeral_text(value as u128, 10)
}

/// Renders a signed `value` in base ten.
pub fn signed_text(value: i64) -> (text: String)
    ensures
        text@ == signed_decimal(value as int),
{
    if value >= 0 {
        numeral_text(value as u128, 10)
    } else {
        let magnitude: u64 = if value == i64::MIN {
            9223372036854775808
        } else {
            (-value) as u64
        };
        proof {
            reveal_strlit("-");
        }
        let mut text = String::new();
        text.append("-");
        text.append(numeral_text(magnitude as u128, 10).as_str());
        assert(text@ =~= signed_decimal(value as int));
        text
    }
}

/// Left-pads `text` with zeros to at least `width` characters.
pub fn padded_text(text: &str, width: usize) -> (padded: String)
    ensures
        padded@ == zero_padded(text@, width as nat),
{
    let length: usize = text.unicode_len();
    let mut padded = String::new();
    if length < width {
        let mut count: usize = 0;
        proof {
            reveal_strlit("0");
        }
        while count < width - length
            invariant
                length == text@.len(),
                length < width,
                count <= width - length,
                padded@ == zeros(count as nat),
                "0"@ == seq!['0'],
            decreases width - length - count,
        {
            padded.append("0");
            count = count + 1;
            assert(padded@ =~= zeros(count as nat));
        }
    }
    padded.append(text);
    assert(padded@ =~= zero_padded(text@, width as nat));
    padded
}

/// Renders bytes as lower-case hexadecimal.
pub fn hex_text(bytes: &[u8]) -> (text: String)
    ensures
        text@ == hex_of(bytes@),
{
    let mut text = String::new();
    let mut index: usize = 0;
    while index < bytes.len()
        invariant
            index <= bytes.len(),
            text@ == hex_of(bytes@.take(index as int)),
        decreases bytes.len() - index,
    {
        let byte: u8 = bytes[index];
        text.append(digit_text((byte / 16) as u64));
        text.append(digit_text((byte % 16) as u64));
        let ghost before = bytes@.take(index as int);
        index = index + 1;
        let ghost after = bytes@.take(index as int);
        proof {
            assert(after == before.push(byte));
            assert forall|i: int| 0 <= i < 2 * after.len() implies text@[i] == hex_of(after)[i] by {
                if i < 2 * before.len() {
                    assert(hex_of(before)[i] == hex_of(after)[i]);
                }
            }
            assert(text@ =~= hex_of(after));
        }
    }
    assert(bytes@.take(index as int) =~= bytes@);
    text
}

/// Whether `text` begins with `prefix`.
pub fn starts_with(text: &str, prefix: &str) -> (found: bool)
    ensures
        found == prefix@.is_prefix_of(text@),
{
    let length: usize = prefix.unicode_len();
    if text.unicode_len() < length {
        return false;
    }
    let head = text.substring_char(0, length);
    let same = head.to_owned() == prefix.to_owned();
    assert(head@ == text@.subrange(0, length as int));
    same
}

/// The rest of `text` behind `prefix`, when it begins with it.
pub fn strip_prefix<'a>(text: &'a str, prefix: &str) -> (rest: Option<&'a str>)
    ensures
        rest is Some <==> prefix@.is_prefix_of(text@),
        rest matches Some(tail) ==> text@ == prefix@ + tail@,
{
    if starts_with(text, prefix) {
        let length: usize = prefix.unicode_len();
        let end: usize = text.unicode_len();
        let tail = text.substring_char(length, end);
        assert(text@ =~= prefix@ + tail@);
        Some(tail)
    } else {
        None
    }
}

/// Whether two string slices hold the same characters.
pub fn same_text(left: &str, right: &str) -> (same: bool)
    ensures
        same == (left@ == right@),
{
    left.to_owned() == right.to_owned()
}

/// The characters of `text` in order.
pub fn chars_of(text: &str) -> (chars: Vec<char>)
    ensures
        chars@ == text@,
{
    let mut chars: Vec<char> = Vec::new();
    for c in iter: text.chars()
        invariant
            iter.seq() == text@,
            chars@ == iter.seq().take(iter.index() as int),
    {
        chars.push(c);
    }
    assert(chars@ =~= text@);
    chars
}

/// A list of integers in brackets, separated by commas.
pub open spec fn listed(values: Seq<i32>) -> Seq<char> {
    "["@ + comma_separated(values) + "]"@
}

/// Integers separated by commas.
pub open spec fn comma_separated(values: Seq<i32>) -> Seq<char>
    decreases values.len(),
{
    if values.len() == 0 {
        Seq::empty()
    } else if values.len() == 1 {
        signed_decimal(values[0] as int)
    } else {
        comma_separated(values.drop_last()) + ", "@ + signed_decimal(values.last() as int)
    }
}

/// Renders integers as a list in brackets.
pub fn list_text(values: &Vec<i32>) -> (text: String)
    ensures
        text@ == listed(values@),
{
    let mut inner = String::new();
    let mut index: usize = 0;
    assert(values@.take(0).len() == 0);
    while index < values.len()
        invariant
            index <= values@.len(),
            inner@ == comma_separated(values@.take(index as int)),
        decreases values@.len() - index,
    {
        let ghost before = inner@;
        if index > 0 {
            inner.append(", ");
        }
        inner.append(signed_text(values[index] as i64).as_str());
        assert(values@.take(index + 1).drop_last() =~= values@.take(index as int));
        index = index + 1;
        assert(inner@ =~= comma_separated(values@.take(index as int)));
    }
    assert(values@.take(index as int) =~= values@);
    let mut text = "[".to_owned();
    text.append(inner.as_str());
    text.append("]");
    text
}

/// Whether a character is white space in Unicode.
pub open spec fn is_white_space(c: char) -> bool {
    ||| '\u{9}' <= c && c <= '\u{d}'
    ||| c == ' '
    ||| c == '\u{85}'
    ||| c == '\u{a0}'
    ||| c == '\u{1680}'
    ||| '\u{2000}' <= c && c <= '\u{200a}'
    ||| c == '\u{2028}'
    ||| c == '\u{2029}'
    ||| c == '\u{202f}'
    ||| c == '\u{205f}'
    ||| c == '\u{3000}'
}

fn white_space(c: char) -> (white: bool)
    ensures
        white == is_white_space(c),
{
    ('\u{9}' <= c && c <= '\u{d}') || c == ' ' || c == '\u{85}' || c == '\u{a0}' || c == '\u{1680}'
        || ('\u{2000}' <= c && c <= '\u{200a}') || c == '\u{2028}' || c == '\u{2029}'
        || c == '\u{202f}' || c == '\u{205f}' || c == '\u{3000}'
}

/// A text without white space at its ends.
pub open spec fn trimmed(text: Seq<char>) -> Seq<char>
    decreases text.len(),
{
    if text.len() > 0 && is_white_space(text[0]) {
        trimmed(text.drop_first())
    } else if text.len() > 0 && is_white_space(text.last()) {
        trimmed(text.drop_last())
    } else {
        text
    }
}

/// Takes the white space off both ends of a text.
pub fn trim(text: &str) -> (kept: String)
    ensures
        kept@ == trimmed(text@),
{
    let mut start: usize = 0;
    let mut end: usize = text.unicode_len();
    assert(text@.subrange(0, end as int) =~= text@);
    while start < end && white_space(text.get_char(start))
        invariant
            start <= end <= text@.len(),
            trimmed(text@) == trimmed(text@.subrange(start as int, end as int)),
        decreases end - start,
    {
        assert(text@.subrange(start as int, end as int).drop_first() =~= text@.subrange(
            start + 1,
            end as int,
        ));
        start = start + 1;
    }
    while start < end && white_space(text.get_char(end - 1))
        invariant
            start <= end <= text@.len(),
            start < end ==> !is_white_space(text@[start as int]),
            trimmed(text@) == trimmed(text@.subrange(start as int, end as int)),
        decreases end - start,
    {
        assert(text@.subrange(start as int, end as int).drop_last() =~= text@.subrange(
            start as int,
            end - 1,
        ));
        end = end - 1;
    }
    text.substring_char(start, end).to_owned()
}

/// How Rust's debug format quotes and escapes a text.
pub uninterp spec fn debug_quoted(text: Seq<char>) -> Seq<char>;

/// Formats a text with `{:?}`, which quotes it and escapes what needs escaping. What
/// comes out depends on the text alone; nothing else is said of it.
#[verifier::external_body]
pub(crate) fn debug_text(text: &str) -> (quoted: String)
    ensures
        quoted@ == debug_quoted(text@),
{
    format!("{:?}", text)
}

/// Sizes separated by commas.
pub open spec fn sizes_separated(values: Seq<usize>) -> Seq<char>
    decreases values.len(),
{
    if values.len() == 0 {
        Seq::empty()
    } else if values.len() == 1 {
        decimal(values[0] as nat)
    } else {
        sizes_separated(values.drop_last()) + ", "@ + decimal(values.last() as nat)
    }
}

/// A list of sizes in brackets, separated by commas.
pub open spec fn listed_sizes(values: Seq<usize>) -> Seq<char> {
    "["@ + sizes_separated(values) + "]"@
}

/// Renders sizes as a list in brackets.
pub fn sizes_text(values: &Vec<usize>) -> (text: String)
    ensures
        text@ == listed_sizes(values@),
{
    let mut inner = String::new();
    let mut index: usize = 0;
    assert(values@.take(0).len() == 0);
    while index < values.len()
        invariant
            index <= values@.len(),
            inner@ == sizes_separated(values@.take(index as int)),
        decreases values@.len() - index,
    {
        if index > 0 {
            inner.append(", ");
        }
        inner.append(usize_text(values[index]).as_str());
        assert(values@.take(index + 1).drop_last() =~= values@.take(index as int));
        index = index + 1;
        assert(inner@ =~= sizes_separated(values@.take(index as int)));
    }
    assert(values@.take(index as int) =~= values@);
    let mut text = "[".to_owned();
    text.append(inner.as_str());
    text.append("]");
    text
}

/// Whether a pattern stands at a position of a text.
pub open spec fn stands_at(text: Seq<char>, pattern: Seq<char>, position: int) -> bool {
    0 <= position && position + pattern.len() <= text.len() && text.subrange(
        position,
        position + pattern.len(),
    ) == pattern
}

/// Where a pattern first stands in a text, from a position on.
pub open spec fn first_at(text: Seq<char>, pattern: Seq<char>, from: int) -> Option<int>
    decreases text.len() - from + 1,
{
    if from > text.len() {
        None
    } else if stands_at(text, pattern, from) {
        Some(from)
    } else {
        first_at(text, pattern, from + 1)
    }
}

/// Whether a pattern occurs in a text.
pub open spec fn occurs(text: Seq<char>, pattern: Seq<char>) -> bool {
    first_at(text, pattern, 0) is Some
}

/// Finds where a pattern first stands in a text.
pub fn find_text(text: &str, pattern: &str) -> (position: Option<usize>)
    ensures
        match position {
            Some(i) => first_at(text@, pattern@, 0) == Some(i as int) && i + pattern@.len()
                <= text@.len(),
            None => first_at(text@, pattern@, 0) is None,
        },
{
    let length: usize = text.unicode_len();
    let width: usize = pattern.unicode_len();
    if width > length {
        proof {
            absent_if_longer(text@, pattern@, 0);
        }
        return None;
    }
    let last: usize = length - width;
    let mut index: usize = 0;
    while index <= last
        invariant
            length == text@.len(),
            width == pattern@.len(),
            last + width == length,
            index <= last + 1,
            first_at(text@, pattern@, 0) == first_at(text@, pattern@, index as int),
        decreases last + 1 - index,
    {
        if same_text(text.substring_char(index, index + width), pattern) {
            return Some(index);
        }
        if index == last {
            proof {
                absent_behind(text@, pattern@, last + 1);
            }
            return None;
        }
        index = index + 1;
    }
    proof {
        absent_behind(text@, pattern@, index as int);
    }
    None
}

proof fn absent_if_longer(text: Seq<char>, pattern: Seq<char>, from: int)
    requires
        0 <= from,
        pattern.len() > text.len(),
    ensures
        first_at(text, pattern, from) is None,
    decreases text.len() - from + 1,
{
    if from <= text.len() {
        absent_if_longer(text, pattern, from + 1);
    }
}

proof fn absent_behind(text: Seq<char>, pattern: Seq<char>, from: int)
    requires
        0 <= from,
        from + pattern.len() > text.len(),
    ensures
        first_at(text, pattern, from) is None,
    decreases text.len() - from + 1,
{
    if from <= text.len() {
        absent_behind(text, pattern, from + 1);
    }
}

/// Answers whether a pattern occurs in a text.
pub fn contains_text(text: &str, pattern: &str) -> (found: bool)
    ensures
        found == occurs(text@, pattern@),
{
    find_text(text, pattern).is_some()
}

/// A text with the first occurrence of a pattern replaced.
pub open spec fn replaced_first(
    text: Seq<char>,
    pattern: Seq<char>,
    replacement: Seq<char>,
) -> Seq<char> {
    match first_at(text, pattern, 0) {
        Some(i) => text.take(i) + replacement + text.skip(i + pattern.len()),
        None => text,
    }
}

/// Replaces the first occurrence of a pattern in a text.
pub fn replace_first(text: &str, pattern: &str, replacement: &str) -> (replaced: String)
    ensures
        replaced@ == replaced_first(text@, pattern@, replacement@),
{
    match find_text(text, pattern) {
        Some(index) => {
            let length: usize = text.unicode_len();
            let behind: usize = index + pattern.unicode_len();
            let mut replaced = text.substring_char(0, index).to_owned();
            replaced.append(replacement);
            replaced.append(text.substring_char(behind, length));
            assert(text@.subrange(0, index as int) =~= text@.take(index as int));
            assert(text@.subrange(behind as int, length as int) =~= text@.skip(behind as int));
            replaced
        },
        None => text.to_owned(),
    }
}

/// Whether a character is a decimal digit.
pub open spec fn is_digit(c: char) -> bool {
    '0' <= c && c <= '9'
}

/// The value of decimal digits.
pub open spec fn digits_value(digits: Seq<char>) -> int
    decreases digits.len(),
{
    if digits.len() == 0 {
        0
    } else {
        10 * digits_value(digits.drop_last()) + (digits.last() as int - '0' as int)
    }
}

/// Whether every character is a decimal digit.
pub open spec fn all_digits(text: Seq<char>) -> bool {
    forall|i: int| 0 <= i < text.len() ==> is_digit(#[trigger] text[i])
}

/// The number that a text denotes: decimal digits, perhaps behind a plus sign.
pub open spec fn parsed_size(text: Seq<char>) -> Option<int> {
    let digits = if text.len() > 0 && text[0] == '+' {
        text.drop_first()
    } else {
        text
    };
    if digits.len() == 0 || !all_digits(digits) || digits_value(digits) > usize::MAX {
        None
    } else {
        Some(digits_value(digits))
    }
}

proof fn digits_grow(digits: Seq<char>, length: int)
    requires
        0 <= length <= digits.len(),
        all_digits(digits),
    ensures
        0 <= digits_value(digits.take(length)) <= digits_value(digits),
    decreases digits.len(),
{
    if length == digits.len() {
        assert(digits.take(length) =~= digits);
        if digits.len() > 0 {
            let rest = digits.drop_last();
            assert forall|i: int| 0 <= i < rest.len() implies is_digit(#[trigger] rest[i]) by {
                assert(rest[i] == digits[i]);
            }
            digits_grow(rest, length - 1);
            assert(rest.take(length - 1) =~= rest);
            assert(is_digit(digits[digits.len() - 1]));
        }
    } else {
        let rest = digits.drop_last();
        assert forall|i: int| 0 <= i < rest.len() implies is_digit(#[trigger] rest[i]) by {
            assert(rest[i] == digits[i]);
        }
        digits_grow(rest, length);
        assert(rest.take(length) =~= digits.take(length));
        assert(is_digit(digits[digits.len() - 1]));
    }
}

/// Parses a number.
pub fn parse_size(text: &str) -> (number: Option<usize>)
    ensures
        match number {
            Some(value) => parsed_size(text@) == Some(value as int),
            None => parsed_size(text@) is None,
        },
{
    let chars = chars_of(text);
    let start: usize = if chars.len() > 0 && chars[0] == '+' {
        1
    } else {
        0
    };
    let ghost digits = text@.skip(start as int);
    assert(start == 1 ==> digits =~= text@.drop_first());
    assert(start == 0 ==> digits =~= text@);
    if chars.len() == start {
        return None;
    }
    let mut index: usize = start;
    while index < chars.len()
        invariant
            chars@ == text@,
            start <= index <= chars@.len(),
            digits == text@.skip(start as int),
            digits == (if text@.len() > 0 && text@[0] == '+' {
                text@.drop_first()
            } else {
                text@
            }),
            forall|i: int| 0 <= i < index - start ==> is_digit(#[trigger] digits[i]),
        decreases chars@.len() - index,
    {
        let c = chars[index];
        assert(digits[index - start] == c);
        if !('0' <= c && c <= '9') {
            assert(!is_digit(digits[index - start]));
            return None;
        }
        index = index + 1;
    }
    let mut value: usize = 0;
    let mut index: usize = start;
    while index < chars.len()
        invariant
            chars@ == text@,
            start <= index <= chars@.len(),
            digits == text@.skip(start as int),
            digits.len() > 0,
            all_digits(digits),
            parsed_size(text@) == (if digits_value(digits) > usize::MAX {
                None::<int>
            } else {
                Some(digits_value(digits))
            }),
            value == digits_value(digits.take(index - start)),
        decreases chars@.len() - index,
    {
        let c = chars[index];
        proof {
            let longer = digits.take(index - start + 1);
            assert(longer.drop_last() =~= digits.take(index - start));
            assert(longer.last() == c);
            assert(is_digit(digits[index - start]));
            digits_grow(digits, index - start + 1);
        }
        let digit: usize = (c as u32 - '0' as u32) as usize;
        value = match value.checked_mul(10) {
            Some(tens) => match tens.checked_add(digit) {
                Some(sum) => sum,
                None => {
                    return None;
                },
            },
            None => {
                return None;
            },
        };
        index = index + 1;
    }
    assert(digits.take(index - start) =~= digits);
    Some(value)
}

/// What follows the last dot of a text; all of it where it has none.
pub open spec fn last_segment(text: Seq<char>) -> Seq<char>
    decreases text.len(),
{
    if text.len() == 0 || text.last() == '.' {
        Seq::empty()
    } else {
        last_segment(text.drop_last()).push(text.last())
    }
}

/// Returns what follows the last dot of a text.
pub fn behind_last_dot(text: &str) -> (segment: String)
    ensures
        segment@ == last_segment(text@),
{
    let length: usize = text.unicode_len();
    let mut start: usize = length;
    assert(text@.take(length as int) =~= text@);
    assert(text@.subrange(start as int, length as int) =~= Seq::empty());
    while start > 0 && text.get_char(start - 1) != '.'
        invariant
            start <= length,
            length == text@.len(),
            last_segment(text@) == last_segment(text@.take(start as int)) + text@.subrange(
                start as int,
                length as int,
            ),
        decreases start,
    {
        proof {
            let longer = text@.take(start as int);
            assert(longer.drop_last() =~= text@.take(start - 1));
            assert(text@.subrange(start - 1, length as int) =~= seq![text@[start - 1]]
                + text@.subrange(start as int, length as int));
            assert(last_segment(text@) =~= last_segment(text@.take(start - 1)) + text@.subrange(
                start - 1,
                length as int,
            ));
        }
        start = start - 1;
    }
    proof {
        assert(last_segment(text@.take(start as int)) =~= Seq::empty());
        assert(last_segment(text@) =~= text@.subrange(start as int, length as int));
    }
    text.substring_char(start, length).to_owned()
}

/// What comes before the first dot of a text; all of it where it has none.
pub open spec fn first_segment(text: Seq<char>) -> Seq<char>
    decreases text.len(),
{
    if text.len() == 0 || text[0] == '.' {
        Seq::empty()
    } else {
        seq![text[0]] + first_segment(text.drop_first())
    }
}

/// Returns what comes before the first dot of a text.
pub fn before_first_dot(text: &str) -> (segment: String)
    ensures
        segment@ == first_segment(text@),
{
    let length: usize = text.unicode_len();
    let mut end: usize = 0;
    assert(text@.skip(0) =~= text@);
    assert(text@.subrange(0, 0) =~= Seq::empty());
    while end < length && text.get_char(end) != '.'
        invariant
            end <= length,
            length == text@.len(),
            first_segment(text@) == text@.subrange(0, end as int) + first_segment(
                text@.skip(end as int),
            ),
        decreases length - end,
    {
        proof {
            let rest = text@.skip(end as int);
            assert(rest.drop_first() =~= text@.skip(end + 1));
            assert(text@.subrange(0, end + 1) =~= text@.subrange(0, end as int)
                + seq![text@[end as int]]);
            assert(first_segment(text@) =~= text@.subrange(0, end + 1) + first_segment(
                text@.skip(end + 1),
            ));
        }
        end = end + 1;
    }
    proof {
        assert(first_segment(text@.skip(end as int)) =~= Seq::empty());
        assert(first_segment(text@) =~= text@.subrange(0, end as int));
    }
    text.substring_char(0, end).to_owned()
}

/// The decimal numeral of a number consists of digits and denotes that number.
pub proof fn decimal_denotes(value: nat)
    ensures
        decimal(value).len() > 0,
        all_digits(decimal(value)),
        digits_value(decimal(value)) == value,
    decreases value,
{
    let text = decimal(value);
    if value >= 10 {
        let high = value / 10;
        decimal_denotes(high);
        assert(text.drop_last() =~= decimal(high));
        assert forall|i: int| 0 <= i < text.len() implies is_digit(#[trigger] text[i]) by {
            if i < text.len() - 1 {
                assert(text[i] == decimal(high)[i]);
            }
        }
    } else {
        assert(text.drop_last() =~= Seq::empty());
        assert(digits_value(text.drop_last()) == 0);
    }
}

/// Leading zeros do not change what digits denote.
pub proof fn padding_keeps_value(text: Seq<char>, width: nat)
    ensures
        digits_value(zero_padded(text, width)) == digits_value(text),
{
    if text.len() < width {
        leading_zeros(text, (width - text.len()) as nat);
    }
}

proof fn leading_zeros(text: Seq<char>, count: nat)
    ensures
        digits_value(zeros(count) + text) == digits_value(text),
    decreases count + text.len(),
{
    let padded = zeros(count) + text;
    if text.len() > 0 {
        assert(padded.drop_last() =~= zeros(count) + text.drop_last());
        leading_zeros(text.drop_last(), count);
    } else if count > 0 {
        assert(padded.drop_last() =~= zeros((count - 1) as nat) + text);
        leading_zeros(text, (count - 1) as nat);
    }
}

/// Padded numerals consist of digits.
pub proof fn padded_numerals_are_digits(value: nat, width: nat)
    ensures
        all_digits(zero_padded(decimal(value), width)),
{
    decimal_denotes(value);
    let text = decimal(value);
    let padded = zero_padded(text, width);
    assert forall|i: int| 0 <= i < padded.len() implies is_digit(#[trigger] padded[i]) by {
        if text.len() < width && i >= width - text.len() {
            assert(padded[i] == text[i - (width - text.len())]);
        }
    }
}

/// Numbers of at most five digits are padded to exactly five.
pub proof fn short_numerals_fill_five(value: nat)
    requires
        value < 100000,
    ensures
        zero_padded(decimal(value), 5).len() == 5,
{
    reveal_with_fuel(numeral, 5);
}

/// Different numbers have different padded numerals.
pub proof fn padded_numerals_differ(left: nat, right: nat, width: nat)
    requires
        zero_padded(decimal(left), width) == zero_padded(decimal(right), width),
    ensures
        left == right,
{
    decimal_denotes(left);
    decimal_denotes(right);
    padding_keeps_value(decimal(left), width);
    padding_keeps_value(decimal(right), width);
}

/// Reading the numeral of a size gives that size back.
pub proof fn numerals_read_back(value: usize)
    ensures
        parsed_size(decimal(value as nat)) == Some(value as int),
{
    decimal_denotes(value as nat);
    assert(is_digit(decimal(value as nat)[0]));
}

/// The number of numerals of so many decimal digits.
pub open spec fn tens(digits: nat) -> nat
    decreases digits,
{
    if digits == 0 {
        1
    } else {
        10 * tens((digits - 1) as nat)
    }
}

/// A number below a power of ten has a numeral of at most so many digits.
pub proof fn decimal_length(value: nat, digits: nat)
    requires
        digits > 0,
        value < tens(digits),
    ensures
        1 <= decimal(value).len() <= digits,
    decreases digits,
{
    if value >= 10 {
        if digits == 1 {
            assert(tens(0) == 1);
            assert(tens(1) == 10);
        }
        decimal_length(value / 10, (digits - 1) as nat);
    }
}

/// The sixteenth power of so many digits.
pub open spec fn sixteens(digits: nat) -> nat
    decreases digits,
{
    if digits == 0 {
        1
    } else {
        16 * sixteens((digits - 1) as nat)
    }
}

/// A number below a power of sixteen has no more hexadecimal digits than the exponent.
pub proof fn hexadecimal_length(value: nat, digits: nat)
    requires
        digits > 0,
        value < sixteens(digits),
    ensures
        1 <= numeral(value, 16).len() <= digits,
    decreases digits,
{
    if value >= 16 {
        if digits == 1 {
            assert(sixteens(0) == 1);
            assert(sixteens(1) == 16);
        }
        hexadecimal_length(value / 16, (digits - 1) as nat);
    }
}

proof fn numeral_is_not_empty(value: nat)
    ensures
        numeral(value, 16).len() > 0,
        value >= 16 ==> numeral(value, 16).len() > 1,
    decreases value,
{
    if value >= 16 {
        numeral_is_not_empty(value / 16);
    }
}

proof fn padded_step(value: nat, width: nat)
    requires
        width >= 2,
    ensures
        zero_padded(numeral(value, 16), width).len() > 0,
        zero_padded(numeral(value, 16), width).last() == digit_char(value % 16),
        zero_padded(numeral(value, 16), width).drop_last() == zero_padded(
            numeral(value / 16, 16),
            (width - 1) as nat,
        ),
{
    numeral_is_not_empty(value);
    let padded = zero_padded(numeral(value, 16), width);
    let shorter = zero_padded(numeral(value / 16, 16), (width - 1) as nat);
    assert(padded.drop_last() =~= shorter);
}

/// Different numbers have different padded hexadecimal numerals.
pub proof fn hexadecimals_differ(left: nat, right: nat, width: nat)
    requires
        zero_padded(numeral(left, 16), width) == zero_padded(numeral(right, 16), width),
    ensures
        left == right,
    decreases width, left,
{
    if width >= 2 {
        padded_step(left, width);
        padded_step(right, width);
        hexadecimals_differ(left / 16, right / 16, (width - 1) as nat);
    } else {
        let first = numeral(left, 16);
        let second = numeral(right, 16);
        numeral_is_not_empty(left);
        numeral_is_not_empty(right);
        assert(first == second);
        assert(first.last() == digit_char(left % 16));
        assert(second.last() == digit_char(right % 16));
        if left >= 16 {
            assert(right >= 16);
            assert(first.drop_last() =~= numeral(left / 16, 16));
            assert(second.drop_last() =~= numeral(right / 16, 16));
            numeral_is_not_empty(left / 16);
            numeral_is_not_empty(right / 16);
            hexadecimals_differ(left / 16, right / 16, width);
        }
    }
}

/// A pattern is found where it stands and does not stand before.
pub proof fn patterns_are_found_where_they_first_stand(
    text: Seq<char>,
    pattern: Seq<char>,
    from: int,
    at: int,
)
    requires
        0 <= from <= at,
        at + pattern.len() <= text.len(),
        text.subrange(at, at + pattern.len()) == pattern,
        forall|i: int|
            from <= i < at ==> !(#[trigger] stands_at(text, pattern, i)),
    ensures
        first_at(text, pattern, from) == Some(at),
    decreases at - from,
{
    assert(stands_at(text, pattern, at));
    if from < at {
        assert(!stands_at(text, pattern, from));
        patterns_are_found_where_they_first_stand(text, pattern, from + 1, at);
    }
}

/// A pattern that is found stands there, and stands nowhere before.
pub proof fn found_patterns_stand(text: Seq<char>, pattern: Seq<char>, from: int, before: int)
    requires
        0 <= from,
    ensures
        first_at(text, pattern, from) matches Some(at) ==> {
            &&& from <= at
            &&& at + pattern.len() <= text.len()
            &&& text.subrange(at, at + pattern.len()) == pattern
            &&& from <= before < at ==> !stands_at(text, pattern, before)
        },
        first_at(text, pattern, from) is None && from <= before ==> !stands_at(
            text,
            pattern,
            before,
        ),
    decreases text.len() - from + 1,
{
    if from <= text.len() && !stands_at(text, pattern, from) {
        found_patterns_stand(text, pattern, from + 1, before);
    }
}

/// What follows the last dot of a text is its last segment.
pub proof fn last_segments_follow_the_last_dot(head: Seq<char>, tail: Seq<char>)
    requires
        forall|i: int| 0 <= i < tail.len() ==> #[trigger] tail[i] != '.',
    ensures
        last_segment(head + seq!['.'] + tail) == tail,
    decreases tail.len(),
{
    let text = head + seq!['.'] + tail;
    if tail.len() > 0 {
        assert(text.last() == tail[tail.len() - 1]);
        assert(text.drop_last() =~= head + seq!['.'] + tail.drop_last());
        assert forall|i: int| 0 <= i < tail.drop_last().len() implies #[trigger] tail.drop_last()[i]
            != '.' by {
            assert(tail[i] != '.');
        }
        last_segments_follow_the_last_dot(head, tail.drop_last());
        assert(tail.drop_last().push(tail.last()) =~= tail);
    } else {
        assert(text.last() == '.');
        assert(tail =~= Seq::empty());
    }
}

/// What comes before the first dot of a text is its first segment.
pub proof fn first_segments_precede_the_first_dot(head: Seq<char>, tail: Seq<char>)
    requires
        forall|i: int| 0 <= i < head.len() ==> #[trigger] head[i] != '.',
    ensures
        first_segment(head + seq!['.'] + tail) == head,
        first_segment(head) == head,
    decreases head.len(),
{
    let text = head + seq!['.'] + tail;
    if head.len() > 0 {
        assert(text[0] == head[0]);
        assert(text.drop_first() =~= head.drop_first() + seq!['.'] + tail);
        assert forall|i: int| 0 <= i < head.drop_first().len() implies #[trigger] head.drop_first()[i]
            != '.' by {
            assert(head[i + 1] != '.');
        }
        first_segments_precede_the_first_dot(head.drop_first(), tail);
        assert(seq![head[0]] + head.drop_first() =~= head);
    } else {
        assert(text[0] == '.');
        assert(head =~= Seq::empty());
    }
}

/// The value of a lower-case hexadecimal digit.
pub open spec fn hex_value(c: char) -> int {
    if '0' <= c && c <= '9' {
        c as int - '0' as int
    } else {
        c as int - 'a' as int + 10
    }
}

/// Hexadecimal text denotes its bytes: two digits for each, the more significant first.
pub proof fn hexadecimal_text_denotes_bytes(bytes: Seq<u8>, index: int)
    requires
        0 <= index < bytes.len(),
    ensures
        hex_of(bytes).len() == 2 * bytes.len(),
        16 * hex_value(hex_of(bytes)[2 * index]) + hex_value(hex_of(bytes)[2 * index + 1])
            == bytes[index],
{
    let byte = bytes[index];
    assert((2 * index) / 2 == index);
    assert((2 * index + 1) / 2 == index);
    assert((2 * index) % 2 == 0);
    assert((2 * index + 1) % 2 == 1);
    assert(byte / 16 < 16 && byte % 16 < 16);
    digits_have_their_value((byte / 16) as nat);
    digits_have_their_value((byte % 16) as nat);
}

proof fn digits_have_their_value(digit: nat)
    requires
        digit < 16,
    ensures
        hex_value(digit_char(digit)) == digit,
{
}

/// Trimming takes white space off both ends and nothing else: what is left begins and ends
/// with other characters, and stands in the text behind nothing but white space.
pub proof fn trimming_takes_off_white_space(text: Seq<char>) -> (start: int)
    ensures
        ({
            let kept = trimmed(text);
            &&& 0 <= start <= text.len() - kept.len()
            &&& kept == text.subrange(start, start + kept.len())
            &&& kept.len() > 0 ==> !is_white_space(kept[0]) && !is_white_space(kept.last())
            &&& forall|i: int| 0 <= i < start ==> is_white_space(#[trigger] text[i])
            &&& forall|i: int|
                start + kept.len() <= i < text.len() ==> is_white_space(#[trigger] text[i])
        }),
    decreases text.len(),
{
    let kept = trimmed(text);
    if text.len() > 0 && is_white_space(text[0]) {
        let rest = text.drop_first();
        let start = trimming_takes_off_white_space(rest) + 1;
        assert(kept =~= text.subrange(start, start + kept.len()));
        assert forall|i: int| 0 <= i < start implies is_white_space(#[trigger] text[i]) by {
            if i > 0 {
                assert(rest[i - 1] == text[i]);
            }
        }
        assert forall|i: int| start + kept.len() <= i < text.len() implies is_white_space(
            #[trigger] text[i],
        ) by {
            assert(rest[i - 1] == text[i]);
        }
        start
    } else if text.len() > 0 && is_white_space(text.last()) {
        let rest = text.drop_last();
        let start = trimming_takes_off_white_space(rest);
        assert(kept =~= text.subrange(start, start + kept.len()));
        assert forall|i: int| 0 <= i < start implies is_white_space(#[trigger] text[i]) by {
            assert(rest[i] == text[i]);
        }
        assert forall|i: int| start + kept.len() <= i < text.len() implies is_white_space(
            #[trigger] text[i],
        ) by {
            if i < text.len() - 1 {
                assert(rest[i] == text[i]);
            }
        }
        start
    } else {
        assert(kept =~= text.subrange(0, kept.len() as int));
        0
    }
}

/// What stands between two texts occurs in all of it.
pub proof fn enclosed_patterns_occur(before: Seq<char>, marker: Seq<char>, after: Seq<char>)
    ensures
        occurs(before + marker + after, marker),
{
    let text = before + marker + after;
    let at = before.len() as int;
    assert(text.subrange(at, at + marker.len()) =~= marker);
    found_patterns_stand(text, marker, 0, at);
}

/// A part of a pattern occurs wherever the pattern does.
pub proof fn parts_of_patterns_occur(text: Seq<char>, whole: Seq<char>, part: Seq<char>, at: int)
    requires
        0 <= at,
        at + part.len() <= whole.len(),
        whole.subrange(at, at + part.len()) =~= part,
    ensures
        occurs(text, whole) ==> occurs(text, part),
{
    if occurs(text, whole) {
        let start = first_at(text, whole, 0)->Some_0;
        found_patterns_stand(text, whole, 0, 0);
        assert(text.subrange(start, start + whole.len()) == whole);
        assert forall|i: int| 0 <= i < part.len() implies text[start + at + i] == part[i] by {
            assert(whole[at + i] == whole.subrange(at, at + part.len())[i]);
            assert(text.subrange(start, start + whole.len())[at + i] == text[start + at + i]);
        }
        assert(text.subrange(start + at, start + at + part.len()) =~= part);
        found_patterns_stand(text, part, 0, start + at);
    }
}

/// A replaced pattern leaves what surrounds it: the text in front of its first occurrence
/// and the text behind it stay, and a text without the pattern stays whole.
pub proof fn replacements_keep_what_surrounds_them(
    before: Seq<char>,
    pattern: Seq<char>,
    after: Seq<char>,
    replacement: Seq<char>,
)
    ensures
        (forall|i: int|
            0 <= i < before.len() ==> !(#[trigger] stands_at(before + pattern + after, pattern, i)))
            ==> replaced_first(before + pattern + after, pattern, replacement) == before
            + replacement + after,
        !occurs(before, pattern) ==> replaced_first(before, pattern, replacement) == before,
{
    let text = before + pattern + after;
    let at = before.len() as int;
    if forall|i: int| 0 <= i < before.len() ==> !(#[trigger] stands_at(text, pattern, i)) {
        assert(text.subrange(at, at + pattern.len()) =~= pattern);
        patterns_are_found_where_they_first_stand(text, pattern, 0, at);
        assert(text.take(at) =~= before);
        assert(text.skip(at + pattern.len()) =~= after);
    }
}

/// Signed numerals are those of the magnitude, with a minus sign in front below zero.
pub proof fn negative_numerals_have_a_sign(value: nat)
    ensures
        signed_decimal(value as int) == decimal(value),
        value > 0 ==> signed_decimal(-value) == seq!['-'] + decimal(value),
{
}

/// Lists show their values in order: what is appended to a list stands behind a comma.
pub proof fn listed_values_stand_in_order(values: Seq<i32>, sizes: Seq<usize>, value: i32, size: usize)
    ensures
        values.len() == 0 ==> comma_separated(values.push(value)) == signed_decimal(value as int),
        values.len() > 0 ==> comma_separated(values.push(value)) == comma_separated(values) + ", "@
            + signed_decimal(value as int),
        sizes.len() == 0 ==> sizes_separated(sizes.push(size)) == decimal(size as nat),
        sizes.len() > 0 ==> sizes_separated(sizes.push(size)) == sizes_separated(sizes) + ", "@
            + decimal(size as nat),
        listed(values) == "["@ + comma_separated(values) + "]"@,
        listed_sizes(sizes) == "["@ + sizes_separated(sizes) + "]"@,
{
    assert(values.push(value).drop_last() =~= values);
    assert(sizes.push(size).drop_last() =~= sizes);
}

} // verus!
