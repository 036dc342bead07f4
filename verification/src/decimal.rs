//! Reading throughput figures as exact numbers.
//!
//! A figure such as `123.45` is read as the integer `12345`, its value in
//! hundredths. Digits beyond the second decimal place round the result to the
//! nearest hundredth, a half rounding up.

use vstd::prelude::*;
use vstd::string::is_ascii_spec_bytes;

verus! {

/// Whether `c` is one of `0` to `9`.
pub open spec fn is_digit(c: char) -> bool {
    '0' <= c <= '9'
}

/// Whether `text` holds nothing but digits.
pub open spec fn all_digits(text: Seq<char>) -> bool {
    forall|i: int| 0 <= i < text.len() ==> is_digit(#[trigger] text[i])
}

/// The number that a digit stands for.
pub open spec fn digit_value(c: char) -> nat {
    (c as u32 - '0' as u32) as nat
}

/// The number that a run of digits spells, read in base ten.
pub open spec fn digits_value(digits: Seq<char>) -> nat
    decreases digits.len(),
{
    if digits.len() == 0 {
        0
    } else {
        digits_value(digits.drop_last()) * 10 + digit_value(digits.last())
    }
}

/// How many characters of `text` stand before the first `mark` in it; the
/// length of `text` where `mark` is not in it.
pub open spec fn first_mark(text: Seq<char>, mark: char) -> int
    decreases text.len(),
{
    if text.len() == 0 || text[0] == mark {
        0
    } else {
        1 + first_mark(text.drop_first(), mark)
    }
}

/// How many characters of `text` stand before its first point; the length of
/// `text` where it has no point.
pub open spec fn first_point(text: Seq<char>) -> int {
    first_mark(text, '.')
}

/// The digit of `digits` at place `i`, or zero past their end.
pub open spec fn digit_at(digits: Seq<char>, i: int) -> nat {
    if 0 <= i < digits.len() {
        digit_value(digits[i])
    } else {
        0
    }
}

/// The decimal places `digits` in hundredths, rounded to the nearest
/// hundredth: the first two places, and one more hundredth where the third
/// place is five or more.
pub open spec fn fraction_hundredths(digits: Seq<char>) -> nat {
    digit_at(digits, 0) * 10 + digit_at(digits, 1) + if digit_at(digits, 2) >= 5 {
        1nat
    } else {
        0nat
    }
}

/// The value of the figure `text` in hundredths. A figure is one or more
/// digits, which may be followed by a point and one or more digits; anything
/// else is no figure.
pub open spec fn decimal_hundredths(text: Seq<char>) -> Option<nat> {
    let point = first_point(text);
    let whole = text.take(point);
    if whole.len() == 0 || !all_digits(whole) {
        None
    } else if point == text.len() {
        Some(digits_value(whole) * 100)
    } else {
        let places = text.skip(point + 1);
        if places.len() == 0 || !all_digits(places) {
            None
        } else {
            Some(digits_value(whole) * 100 + fraction_hundredths(places))
        }
    }
}

/// The value of the figure `text` in hundredths, where `text` is a figure and
/// its value fits in 64 bits.
pub open spec fn parsed_hundredths(text: Seq<char>) -> Option<u64> {
    match decimal_hundredths(text) {
        Some(value) => if value <= u64::MAX {
            Some(value as u64)
        } else {
            None
        },
        None => None,
    }
}

/// Where no `mark` stands before place `at`, and one stands there or the text
/// ends there, `at` is the place of the first `mark`.
pub proof fn lemma_first_mark(text: Seq<char>, mark: char, at: int)
    requires
        0 <= at <= text.len(),
        forall|i: int| 0 <= i < at ==> text[i] != mark,
        at < text.len() ==> text[at] == mark,
    ensures
        first_mark(text, mark) == at,
    decreases text.len(),
{
    if at > 0 {
        let rest = text.drop_first();
        assert forall|i: int| 0 <= i < at - 1 implies rest[i] != mark by {
            assert(rest[i] == text[i + 1]);
        }
        lemma_first_mark(rest, mark, at - 1);
    }
}

/// A run of digits spells at least what any of its beginnings spells.
proof fn lemma_digits_value_grows(digits: Seq<char>, k: int)
    requires
        0 <= k <= digits.len(),
    ensures
        digits_value(digits.take(k)) <= digits_value(digits),
    decreases digits.len(),
{
    if k == digits.len() {
        assert(digits.take(k) =~= digits);
    } else {
        lemma_digits_value_grows(digits.drop_last(), k);
        assert(digits.drop_last().take(k) =~= digits.take(k));
    }
}

/// Reads the digits `bytes[from..to]`, which spell `text[from..to]`. Returns
/// `None` where one of them is no digit or the number does not fit.
fn read_digits(bytes: &[u8], from: usize, to: usize, Ghost(text): Ghost<Seq<char>>) -> (value:
    Option<u64>)
    requires
        from <= to <= bytes.len(),
        bytes.len() == text.len(),
        forall|i: int| 0 <= i < text.len() ==> '\0' <= #[trigger] text[i] <= '\u{7f}',
        forall|i: int| 0 <= i < text.len() ==> bytes[i] == #[trigger] text[i] as u8,
    ensures
        value is Some <==> all_digits(text.subrange(from as int, to as int)) && digits_value(
            text.subrange(from as int, to as int),
        ) <= u64::MAX,
        value matches Some(v) ==> v == digits_value(text.subrange(from as int, to as int)),
{
    let ghost digits = text.subrange(from as int, to as int);
    let mut value: u64 = 0;
    let mut i: usize = from;
    while i < to
        invariant
            from <= i <= to <= bytes.len(),
            bytes.len() == text.len(),
            digits == text.subrange(from as int, to as int),
            forall|j: int| 0 <= j < text.len() ==> '\0' <= #[trigger] text[j] <= '\u{7f}',
            forall|j: int| 0 <= j < text.len() ==> bytes[j] == #[trigger] text[j] as u8,
            all_digits(digits.take(i - from)),
            value == digits_value(digits.take(i - from)),
        decreases to - i,
    {
        let byte: u8 = bytes[i];
        proof {
            assert(digits[i - from] == text[i as int]);
            let next = digits.take(i - from + 1);
            assert(next.drop_last() =~= digits.take(i - from));
            assert(next.last() == text[i as int]);
        }
        if byte < 48 || byte > 57 {
            assert(!is_digit(digits[i - from]));
            return None;
        }
        let digit: u64 = (byte - 48) as u64;
        assert(digit == digit_value(text[i as int]));
        if value > (u64::MAX - digit) / 10 {
            proof {
                if all_digits(digits) {
                    lemma_digits_value_grows(digits, i - from + 1);
                }
            }
            return None;
        }
        value = value * 10 + digit;
        proof {
            let next = digits.take(i - from + 1);
            assert forall|j: int| 0 <= j < next.len() implies is_digit(#[trigger] next[j]) by {
                if j < i - from {
                    assert(next[j] == digits.take(i - from)[j]);
                }
            }
        }
        i = i + 1;
    }
    assert(digits.take(to - from) =~= digits);
    Some(value)
}

/// Reads a throughput figure: digits, then perhaps a point and more digits.
/// Returns its value in hundredths, rounded to the nearest hundredth, or
/// `None` where `text` is no such figure or the value does not fit in 64 bits.
pub fn parse_hundredths(text: &str) -> (value: Option<u64>)
    ensures
        value == parsed_hundredths(text@),
{
    broadcast use is_ascii_spec_bytes;

    if !text.is_ascii() {
        proof {
            let bad = choose|i: int|
                0 <= i < text@.len() && !('\0' <= #[trigger] text@[i] <= '\u{7f}');
            let point = first_point(text@);
            lemma_first_mark_is_first(text@, '.');
            if bad < point {
                assert(text@.take(point)[bad] == text@[bad]);
            } else {
                assert(text@.skip(point + 1)[bad - point - 1] == text@[bad]);
            }
        }
        return None;
    }
    let bytes = text.as_bytes();
    let len: usize = bytes.len();
    assert(bytes@ =~= Seq::new(text@.len(), |i: int| text@[i] as u8));
    let mut point: usize = 0;
    while point < len && bytes[point] != 46
        invariant
            len == bytes.len() == text@.len(),
            0 <= point <= len,
            forall|i: int| 0 <= i < text@.len() ==> '\0' <= #[trigger] text@[i] <= '\u{7f}',
            forall|i: int| 0 <= i < text@.len() ==> bytes[i] == #[trigger] text@[i] as u8,
            forall|i: int| 0 <= i < point ==> text@[i] != '.',
        decreases len - point,
    {
        point = point + 1;
    }
    proof {
        lemma_first_mark(text@, '.', point as int);
        assert(text@.take(point as int) =~= text@.subrange(0, point as int));
        if point < len {
            assert(text@.skip(point + 1) =~= text@.subrange(point + 1, len as int));
        }
    }
    if point == 0 {
        return None;
    }
    let whole: u64 = match read_digits(bytes, 0, point, Ghost(text@)) {
        Some(whole) => whole,
        None => {
            return None;
        },
    };
    if whole > u64::MAX / 100 {
        return None;
    }
    if point == len {
        return Some(whole * 100);
    }
    if point + 1 == len {
        return None;
    }
    let ghost places = text@.skip(point + 1);
    let mut i: usize = point + 1;
    while i < len
        invariant
            len == bytes.len() == text@.len(),
            point + 1 <= i <= len,
            places == text@.skip(point + 1),
            first_point(text@) == point,
            forall|j: int| 0 <= j < text@.len() ==> '\0' <= #[trigger] text@[j] <= '\u{7f}',
            forall|j: int| 0 <= j < text@.len() ==> bytes[j] == #[trigger] text@[j] as u8,
            forall|j: int| 0 <= j < i - point - 1 ==> is_digit(#[trigger] places[j]),
        decreases len - i,
    {
        if bytes[i] < 48 || bytes[i] > 57 {
            assert(places[i - point - 1] == text@[i as int]);
            assert(!is_digit(places[i - point - 1]));
            return None;
        }
        assert(places[i - point - 1] == text@[i as int]);
        i = i + 1;
    }
    assert(all_digits(places));
    assert(places[0] == text@[point + 1]);
    let mut fraction: u64 = ((bytes[point + 1] - 48) as u64) * 10;
    if len - point > 2 {
        assert(places[1] == text@[point + 2]);
        fraction = fraction + (bytes[point + 2] - 48) as u64;
    }
    if len - point > 3 {
        assert(places[2] == text@[point + 3]);
        if bytes[point + 3] >= 53 {
            fraction = fraction + 1;
        }
    }
    assert(fraction == fraction_hundredths(places));
    if whole * 100 > u64::MAX - fraction {
        return None;
    }
    Some(whole * 100 + fraction)
}

/// The place of the first `mark` lies within the text, and no `mark` stands
/// before it.
pub proof fn lemma_first_mark_is_first(text: Seq<char>, mark: char)
    ensures
        0 <= first_mark(text, mark) <= text.len(),
        forall|i: int| 0 <= i < first_mark(text, mark) ==> text[i] != mark,
        first_mark(text, mark) < text.len() ==> text[first_mark(text, mark)] == mark,
    decreases text.len(),
{
    if !(text.len() == 0 || text[0] == mark) {
        let rest = text.drop_first();
        lemma_first_mark_is_first(rest, mark);
        assert forall|i: int| 0 <= i < first_mark(text, mark) implies text[i] != mark by {
            if i > 0 {
                assert(rest[i - 1] == text[i]);
            }
        }
        if first_mark(text, mark) < text.len() {
            assert(rest[first_mark(rest, mark)] == text[first_mark(text, mark)]);
        }
    }
}

/// The whole number that `text` spells: digits, which a plus sign may
/// precede. Anything else spells none.
pub open spec fn whole_number(text: Seq<char>) -> Option<nat> {
    let digits = if text.len() > 0 && text[0] == '+' {
        text.skip(1)
    } else {
        text
    };
    if digits.len() > 0 && all_digits(digits) {
        Some(digits_value(digits))
    } else {
        None
    }
}

/// The whole number that `text` spells, where it spells one that is no
/// greater than `max`.
pub open spec fn parsed_unsigned(text: Seq<char>, max: u64) -> Option<u64> {
    match whole_number(text) {
        Some(value) => if value <= max {
            Some(value as u64)
        } else {
            None
        },
        None => None,
    }
}

/// Reads a whole number of at most `max`: digits, which a plus sign may
/// precede. Returns `None` where `text` is no such number.
pub fn parse_unsigned(text: &str, max: u64) -> (value: Option<u64>)
    ensures
        value == parsed_unsigned(text@, max),
{
    broadcast use is_ascii_spec_bytes;

    if !text.is_ascii() {
        proof {
            let bad = choose|i: int|
                0 <= i < text@.len() && !('\0' <= #[trigger] text@[i] <= '\u{7f}');
            if text@.len() > 0 && text@[0] == '+' {
                assert(text@.skip(1)[bad - 1] == text@[bad]);
            }
        }
        return None;
    }
    let bytes = text.as_bytes();
    let len: usize = bytes.len();
    assert(bytes@ =~= Seq::new(text@.len(), |i: int| text@[i] as u8));
    let from: usize = if len > 0 && bytes[0] == 43 {
        1
    } else {
        0
    };
    proof {
        assert(text@.skip(from as int) =~= text@.subrange(from as int, len as int));
        assert(text@.subrange(0, len as int) =~= text@);
        if len > 0 {
            assert(bytes[0] == text@[0] as u8);
            assert(text@[0] == '+' <==> bytes[0] == 43);
        }
    }
    if from == len {
        return None;
    }
    match read_digits(bytes, from, len, Ghost(text@)) {
        Some(value) => if value <= max {
            Some(value)
        } else {
            None
        },
        None => None,
    }
}

} // verus!
