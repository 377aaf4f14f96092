//! Fixed-point decimals with eighteen fractional digits.

use vstd::prelude::*;

use crate::text::digits;

verus! {

/// The number of atomic units in `1.0`.
pub const ONE: u128 = 1_000_000_000_000_000_000;

/// The number of atomic units in one percent.
pub const PERCENT: u128 = 10_000_000_000_000_000;

/// A non-negative fraction, counted in units of `10^-18`.
#[derive(Clone, Copy, Debug, PartialEq, Eq, Structural)]
pub struct Decimal {
    pub atomics: u128,
}

/// `value * numerator / denominator`, rounded down.
pub open spec fn floor_ratio(value: int, numerator: int, denominator: int) -> int {
    (value * numerator) / denominator
}

/// The part `fraction` of `amount`, rounded down.
pub open spec fn portion(amount: int, fraction: Decimal) -> int {
    floor_ratio(amount, fraction.atomics as int, ONE as int)
}

/// `Uint128::checked_multiply_ratio` of `cosmwasm-std`: the product is formed in
/// 256 bits, divided with the remainder dropped, and reported as missing when the
/// denominator is zero or the quotient needs more than 128 bits.
#[verifier::external_body]
fn multiply_ratio(value: u128, numerator: u128, denominator: u128) -> (r: Option<u128>)
    ensures
        denominator == 0 ==> r is None,
        denominator != 0 ==> match r {
            Some(q) => q == floor_ratio(value as int, numerator as int, denominator as int),
            None => floor_ratio(value as int, numerator as int, denominator as int) > u128::MAX,
        },
{
    let value = cosmwasm_std::Uint128::new(value);
    value.checked_multiply_ratio(numerator, denominator).ok().map(|q| q.u128())
}

/// How `Display` of a decimal writes `atomics` of them: the whole part, then, if
/// there is a fractional part, a point and its digits without trailing zeros.
pub open spec fn decimal_text(atomics: nat) -> Seq<char> {
    let whole = atomics / ONE as nat;
    let fraction = atomics % ONE as nat;
    if fraction == 0 {
        digits(whole)
    } else {
        digits(whole) + seq!['.'] + trimmed(fraction, 18)
    }
}

/// The last `places` decimal digits of `value`, zeros at the front included,
/// zeros at the end left out.
pub open spec fn trimmed(value: nat, places: nat) -> Seq<char>
    decreases places,
{
    if places == 0 {
        seq![]
    } else if value % 10 == 0 {
        trimmed(value / 10, (places - 1) as nat)
    } else {
        padded(value, places)
    }
}

/// The last `places` decimal digits of `value`.
pub open spec fn padded(value: nat, places: nat) -> Seq<char>
    decreases places,
{
    if places == 0 {
        seq![]
    } else {
        padded(value / 10, (places - 1) as nat) + digits(value % 10)
    }
}

/// `Display` of the `Decimal` of `cosmwasm-std`, which writes the number as
/// [`decimal_text`] says.
#[verifier::external_body]
fn display(atomics: u128) -> (r: String)
    ensures
        r@ == decimal_text(atomics as nat),
{
    cosmwasm_std::Decimal::raw(atomics).to_string()
}

impl Decimal {
    /// `1.0`
    pub fn one() -> (r: Decimal)
        ensures
            r.atomics == ONE,
    {
        Decimal { atomics: ONE }
    }

    /// `x` percent.
    pub fn percent(x: u64) -> (r: Decimal)
        ensures
            r.atomics == x * PERCENT,
    {
        assert(x * PERCENT <= u64::MAX * PERCENT) by (nonlinear_arith)
            requires
                x <= u64::MAX,
        ;
        Decimal { atomics: x as u128 * PERCENT }
    }

    /// The fraction `numerator / denominator`, rounded down; `None` if the
    /// denominator is zero or the fraction is too large to be represented.
    pub fn from_ratio(numerator: u128, denominator: u128) -> (r: Option<Decimal>)
        ensures
            denominator == 0 ==> r is None,
            denominator != 0 ==> match r {
                Some(d) => d.atomics == floor_ratio(
                    numerator as int,
                    ONE as int,
                    denominator as int,
                ),
                None => floor_ratio(numerator as int, ONE as int, denominator as int) > u128::MAX,
            },
    {
        match multiply_ratio(numerator, ONE, denominator) {
            Some(atomics) => Some(Decimal { atomics }),
            None => None,
        }
    }

    /// The part `self` of `amount`, rounded down; `None` if it does not fit.
    pub fn of(self, amount: u128) -> (r: Option<u128>)
        ensures
            match r {
                Some(q) => q == portion(amount as int, self),
                None => portion(amount as int, self) > u128::MAX,
            },
    {
        multiply_ratio(amount, self.atomics, ONE)
    }

    /// The product of two decimals, rounded down; `None` if it does not fit.
    pub fn times(self, other: Decimal) -> (r: Option<Decimal>)
        ensures
            match r {
                Some(d) => d.atomics == portion(self.atomics as int, other),
                None => portion(self.atomics as int, other) > u128::MAX,
            },
    {
        match multiply_ratio(self.atomics, other.atomics, ONE) {
            Some(atomics) => Some(Decimal { atomics }),
            None => None,
        }
    }

    /// The number in decimal notation.
    pub fn to_text(&self) -> (r: String)
        ensures
            r@ == decimal_text(self.atomics as nat),
    {
        display(self.atomics)
    }
}

} // verus!
