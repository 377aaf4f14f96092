//! Decimal notation of unsigned integers.

use vstd::prelude::*;

verus! {

/// The character of a single decimal digit.
pub open spec fn digit(value: nat) -> char {
    (('0' as nat) + value % 10) as char
}

/// `value` in decimal notation, without leading zeros.
pub open spec fn digits(value: nat) -> Seq<char>
    decreases value,
{
    if value < 10 {
        seq![digit(value)]
    } else {
        digits(value / 10).push(digit(value))
    }
}

/// The text of a single decimal digit.
fn digit_text(value: u128) -> (r: &'static str)
    requires
        value < 10,
    ensures
        r@ == seq![digit(value as nat)],
{
    proof {
        reveal_strlit("0");
        reveal_strlit("1");
        reveal_strlit("2");
        reveal_strlit("3");
        reveal_strlit("4");
        reveal_strlit("5");
        reveal_strlit("6");
        reveal_strlit("7");
        reveal_strlit("8");
        reveal_strlit("9");
    }
    match value {
        0 => "0",
        1 => "1",
        2 => "2",
        3 => "3",
        4 => "4",
        5 => "5",
        6 => "6",
        7 => "7",
        8 => "8",
        _ => "9",
    }
}

/// Writes `value` in decimal notation.
pub fn number(value: u128) -> (r: String)
    ensures
        r@ == digits(value as nat),
    decreases value,
{
    if value < 10 {
        String::from_str(digit_text(value))
    } else {
        let front = number(value / 10);
        assert(digit((value % 10) as nat) == digit(value as nat));
        front.concat(digit_text(value % 10))
    }
}

} // verus!
