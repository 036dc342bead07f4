//! Numbers written out as text.

use vstd::prelude::*;
use vstd::string::StringExecFns;

verus! {

/// The character that stands for the digit `d`.
pub open spec fn digit_char(d: nat) -> char {
    if d == 0 {
        '0'
    } else if d == 1 {
        '1'
    } else if d == 2 {
        '2'
    } else if d == 3 {
        '3'
    } else if d == 4 {
        '4'
    } else if d == 5 {
        '5'
    } else if d == 6 {
        '6'
    } else if d == 7 {
        '7'
    } else if d == 8 {
        '8'
    } else {
        '9'
    }
}

/// The number `n` in base ten, without leading zeros.
pub open spec fn decimal_text(n: nat) -> Seq<char>
    decreases n,
{
    if n < 10 {
        seq![digit_char(n)]
    } else {
        decimal_text(n / 10).push(digit_char(n % 10))
    }
}

/// The whole number `n` in base ten, with a minus sign where it is negative.
pub open spec fn signed_text(n: int) -> Seq<char> {
    if n < 0 {
        seq!['-'] + decimal_text((-n) as nat)
    } else {
        decimal_text(n as nat)
    }
}

/// A rate of `hundredths` hundredths with both decimal places, as in
/// `12.30`.
pub open spec fn fixed_text(hundredths: nat) -> Seq<char> {
    decimal_text(hundredths / 100) + seq![
        '.',
        digit_char(hundredths % 100 / 10),
        digit_char(hundredths % 10),
    ]
}

/// A rate of `hundredths` hundredths in its shortest form: no decimal place
/// that is zero is written at the end, and no point without a place, as in
/// `12.3` and `12`.
pub open spec fn short_text(hundredths: nat) -> Seq<char> {
    if hundredths % 100 == 0 {
        decimal_text(hundredths / 100)
    } else if hundredths % 10 == 0 {
        decimal_text(hundredths / 100) + seq!['.', digit_char(hundredths % 100 / 10)]
    } else {
        fixed_text(hundredths)
    }
}

/// The digit `d` as text.
fn digit_str(d: u8) -> (text: &'static str)
    requires
        d < 10,
    ensures
        text@ == seq![digit_char(d as nat)],
{
    proof {
        reveal_strlit("0");
        reveal_strlit("1");
        reveal_strlit("2");
        reveal_strlit("3");
        reveal_strlit("4");
        reveal_strlit("5");
        reveal_strlit("6");
        reveal_strlit("7");
        reveal_strlit("8");
        reveal_strlit("9");
    }
    let text = if d == 0 {
        "0"
    } else if d == 1 {
        "1"
    } else if d == 2 {
        "2"
    } else if d == 3 {
        "3"
    } else if d == 4 {
        "4"
    } else if d == 5 {
        "5"
    } else if d == 6 {
        "6"
    } else if d == 7 {
        "7"
    } else if d == 8 {
        "8"
    } else {
        "9"
    };
    assert(text@ =~= seq![digit_char(d as nat)]);
    text
}

/// Writes `n` in base ten at the end of `text`.
pub fn push_number(text: &mut String, n: u128)
    ensures
        final(text)@ == old(text)@ + decimal_text(n as nat),
    decreases n,
{
    if n >= 10 {
        push_number(text, n / 10);
    }
    text.append(digit_str((n % 10) as u8));
    assert(text@ =~= old(text)@ + decimal_text(n as nat));
}

/// Writes the whole number `n` at the end of `text`, with a minus sign where
/// it is negative.
pub fn push_signed(text: &mut String, n: i64)
    ensures
        final(text)@ == old(text)@ + signed_text(n as int),
{
    if n < 0 {
        proof {
            reveal_strlit("-");
        }
        text.append("-");
        push_number(text, (-(n as i128)) as u128);
        assert(text@ =~= old(text)@ + signed_text(n as int));
    } else {
        push_number(text, n as u128);
    }
}

/// Writes a rate with both decimal places at the end of `text`.
pub fn push_fixed(text: &mut String, hundredths: u128)
    ensures
        final(text)@ == old(text)@ + fixed_text(hundredths as nat),
{
    proof {
        reveal_strlit(".");
    }
    push_number(text, hundredths / 100);
    text.append(".");
    text.append(digit_str((hundredths % 100 / 10) as u8));
    text.append(digit_str((hundredths % 10) as u8));
    assert(text@ =~= old(text)@ + fixed_text(hundredths as nat));
}

/// Writes a rate in its shortest form at the end of `text`.
pub fn push_short(text: &mut String, hundredths: u64)
    ensures
        final(text)@ == old(text)@ + short_text(hundredths as nat),
{
    proof {
        reveal_strlit(".");
    }
    if hundredths % 100 == 0 {
        push_number(text, (hundredths / 100) as u128);
    } else if hundredths % 10 == 0 {
        push_number(text, (hundredths / 100) as u128);
        text.append(".");
        text.append(digit_str((hundredths % 100 / 10) as u8));
        assert(text@ =~= old(text)@ + short_text(hundredths as nat));
    } else {
        push_fixed(text, hundredths as u128);
    }
}

} // verus!
