//! Decimal rendering of integers, specified character by character.

use vstd::prelude::*;

verus! {

/// The decimal digit character of a value below ten.
pub open spec fn spec_dec_digit(d: int) -> char {
    if d == 0 {
        '0'
    } else if d == 1 {
        '1'
    } else if d == 2 {
        '2'
    } else if d == 3 {
        '3'
    } else if d == 4 {
        '4'
    } else if d == 5 {
        '5'
    } else if d == 6 {
        '6'
    } else if d == 7 {
        '7'
    } else if d == 8 {
        '8'
    } else {
        '9'
    }
}

/// The decimal writing of a natural number, most significant digit
/// first.
pub open spec fn spec_dec_chars(n: nat) -> Seq<char>
    decreases n,
{
    if n < 10 {
        seq![spec_dec_digit(n as int)]
    } else {
        spec_dec_chars(n / 10).push(spec_dec_digit((n % 10) as int))
    }
}

/// The decimal writing of an integer: a minus sign before the
/// magnitude when negative.
pub open spec fn spec_dec_chars_int(n: int) -> Seq<char> {
    if n >= 0 {
        spec_dec_chars(n as nat)
    } else {
        seq!['-'] + spec_dec_chars((-n) as nat)
    }
}

/// The one-character string of a decimal digit.
fn digit_str(d: u64) -> (r: &'static str)
    requires
        d < 10,
    ensures
        r@ == seq![spec_dec_digit(d as int)],
{
    proof {
        reveal_strlit("0");
        reveal_strlit("1");
        reveal_strlit("2");
        reveal_strlit("3");
        reveal_strlit("4");
        reveal_strlit("5");
        reveal_strlit("6");
        reveal_strlit("7");
        reveal_strlit("8");
        reveal_strlit("9");
    }
    match d {
        0 => "0",
        1 => "1",
        2 => "2",
        3 => "3",
        4 => "4",
        5 => "5",
        6 => "6",
        7 => "7",
        8 => "8",
        _ => "9",
    }
}

/// Writes a number in decimal.
pub fn u64_to_string(n: u64) -> (r: String)
    ensures
        r@ == spec_dec_chars(n as nat),
    decreases n,
{
    if n < 10 {
        digit_str(n).to_owned()
    } else {
        let mut s = u64_to_string(n / 10);
        s.append(digit_str(n % 10));
        proof {
            assert(s@ =~= spec_dec_chars(n as nat));
        }
        s
    }
}

/// Writes a signed number in decimal, with a leading minus sign when
/// negative.
pub fn i64_to_string(n: i64) -> (r: String)
    ensures
        r@ == spec_dec_chars_int(n as int),
{
    if n >= 0 {
        u64_to_string(n as u64)
    } else {
        let magnitude: u64 = ((-(n + 1)) as u64) + 1;
        proof {
            reveal_strlit("-");
        }
        let mut s = String::from_str("-");
        s.append(u64_to_string(magnitude).as_str());
        proof {
            assert(s@ =~= spec_dec_chars_int(n as int));
        }
        s
    }
}

} // verus!
