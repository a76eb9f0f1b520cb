//! Decimal text for fixed-point values.
//!
//! The serializer prints every coordinate as a plain decimal numeral:
//! the whole units, then — only when the thousandths are not zero — a
//! point and one to three fraction digits with trailing zeros trimmed.
//! `5` units print as `5`, `33.2` as `33.2`, `-0.25` as `-0.25`.

use vstd::prelude::*;
use vstd::string::StringExecFns;

verus! {

/// The character for one decimal digit.
pub open spec fn digit_char(d: int) -> char {
    if d == 0 {
        '0'
    } else if d == 1 {
        '1'
    } else if d == 2 {
        '2'
    } else if d == 3 {
        '3'
    } else if d == 4 {
        '4'
    } else if d == 5 {
        '5'
    } else if d == 6 {
        '6'
    } else if d == 7 {
        '7'
    } else if d == 8 {
        '8'
    } else {
        '9'
    }
}

/// The numeric value of a decimal digit character.
pub open spec fn digit_val(c: char) -> int {
    c as int - 48
}

/// Whether a character is a decimal digit.
pub open spec fn is_digit(c: char) -> bool {
    48 <= c as int <= 57
}

/// The decimal numeral of a nonnegative integer, most significant digit
/// first.
pub open spec fn dec_digits(n: int) -> Seq<char>
    recommends
        n >= 0,
    decreases n,
{
    if n < 10 {
        seq![digit_char(n)]
    } else {
        dec_digits(n / 10).push(digit_char(n % 10))
    }
}

/// The fraction part for `r` thousandths, `0 <= r <= 999`: empty when zero,
/// else a point and the fraction digits with trailing zeros trimmed.
pub open spec fn frac_digits(r: int) -> Seq<char> {
    if r == 0 {
        Seq::empty()
    } else if r % 100 == 0 {
        seq!['.', digit_char(r / 100)]
    } else if r % 10 == 0 {
        seq!['.', digit_char(r / 100), digit_char((r / 10) % 10)]
    } else {
        seq!['.', digit_char(r / 100), digit_char((r / 10) % 10), digit_char(r % 10)]
    }
}

/// The decimal text of a nonnegative fixed-point value given in
/// thousandths.
pub open spec fn fmt_nonneg(m: int) -> Seq<char>
    recommends
        m >= 0,
{
    dec_digits(m / 1000) + frac_digits(m % 1000)
}

/// The decimal text of a fixed-point value given in thousandths.
pub open spec fn fmt_fixed(m: int) -> Seq<char> {
    if m < 0 {
        seq!['-'] + fmt_nonneg(-m)
    } else {
        fmt_nonneg(m)
    }
}

/// The text of one decimal digit.
fn digit_str(d: u64) -> (s: &'static str)
    requires
        d <= 9,
    ensures
        s@ =~= seq![digit_char(d as int)],
{
    proof {
        reveal_strlit("0");
        reveal_strlit("1");
        reveal_strlit("2");
        reveal_strlit("3");
        reveal_strlit("4");
        reveal_strlit("5");
        reveal_strlit("6");
        reveal_strlit("7");
        reveal_strlit("8");
        reveal_strlit("9");
    }
    match d {
        0 => "0",
        1 => "1",
        2 => "2",
        3 => "3",
        4 => "4",
        5 => "5",
        6 => "6",
        7 => "7",
        8 => "8",
        _ => "9",
    }
}

/// The decimal numeral of a machine integer.
fn u64_digits(n: u64) -> (s: String)
    ensures
        s@ == dec_digits(n as int),
    decreases n,
{
    if n < 10 {
        digit_str(n).to_owned()
    } else {
        let mut s = u64_digits(n / 10);
        s.append(digit_str(n % 10));
        proof {
            assert(dec_digits(n as int) =~= dec_digits(n as int / 10) + seq![
                digit_char(n as int % 10),
            ]);
        }
        s
    }
}

/// Renders a fixed-point value (in thousandths) as decimal text.
pub fn fixed_to_string(m: i64) -> (s: String)
    requires
        m > i64::MIN,
    ensures
        s@ == fmt_fixed(m as int),
{
    let mut s = String::new();
    let n: u64 = if m < 0 {
        proof {
            reveal_strlit("-");
        }
        s.append("-");
        (-m) as u64
    } else {
        m as u64
    };
    let q = n / 1000;
    let r = n % 1000;
    let digits = u64_digits(q);
    s.append(digits.as_str());
    if r != 0 {
        proof {
            reveal_strlit(".");
        }
        s.append(".");
        if r % 100 == 0 {
            s.append(digit_str(r / 100));
        } else if r % 10 == 0 {
            s.append(digit_str(r / 100));
            s.append(digit_str((r / 10) % 10));
        } else {
            s.append(digit_str(r / 100));
            s.append(digit_str((r / 10) % 10));
            s.append(digit_str(r % 10));
        }
    }
    proof {
        assert(s@ =~= fmt_fixed(m as int));
    }
    s
}

} // verus!
