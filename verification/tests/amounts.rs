//! Decimals, texts, and the books.

use wynd_lsd_hub::decimal::Decimal;
use wynd_lsd_hub::error::{BasicError, ContractError};
use wynd_lsd_hub::order::comes_before;
use wynd_lsd_hub::supply::Supply;
use wynd_lsd_hub::text::number;

#[test]
fn decimals_are_written_without_trailing_zeros() {
    for (atomics, text) in [
        (0, "0"),
        (1, "0.000000000000000001"),
        (40_000_000_000_000_000, "0.04"),
        (1_000_000_000_000_000_000, "1"),
        (12_345_000_000_000_000_000, "12.345"),
        (100_000_000_000_000_000_010, "100.00000000000000001"),
        (u128::MAX, "340282366920938463463.374607431768211455"),
    ] {
        assert_eq!(Decimal { atomics }.to_text(), text);
    }
}

#[test]
fn numbers_are_written_in_full() {
    for value in [0, 9, 10, 101, 1_000_000, u128::MAX] {
        assert_eq!(number(value), value.to_string());
    }
}

#[test]
fn ratios_are_rounded_down() {
    assert_eq!(Decimal::from_ratio(2, 3), Some(Decimal { atomics: 666_666_666_666_666_666 }));
    assert_eq!(Decimal::from_ratio(0, 3), Some(Decimal { atomics: 0 }));
    assert_eq!(Decimal::from_ratio(2, 0), None);
    assert_eq!(Decimal::from_ratio(u128::MAX, 1), None);
    assert_eq!(Decimal::from_ratio(u128::MAX, u128::MAX), Some(Decimal::one()));
    assert_eq!(Decimal::percent(33).of(10), Some(3));
    assert_eq!(Decimal::percent(200).of(u128::MAX), None);
    assert_eq!(Decimal::one().of(u128::MAX), Some(u128::MAX));
    assert_eq!(Decimal::percent(150).times(Decimal::percent(50)), Some(Decimal::percent(75)));
    assert_eq!(Decimal { atomics: u128::MAX }.times(Decimal::percent(101)), None);
    assert_eq!(Decimal::percent(u64::MAX).atomics, u64::MAX as u128 * 10_000_000_000_000_000);
}

#[test]
fn texts_are_compared_by_their_characters() {
    for (a, b) in [("", "a"), ("a", "ab"), ("B", "a"), ("ab", "b"), ("z", "é"), ("é", "😀")] {
        assert!(a < b && comes_before(a, b) && !comes_before(b, a));
    }
    assert!(!comes_before("same", "same"));
}

fn books(issued: u128, total_bonded: u128, claims: u128) -> Supply {
    Supply { issued, total_bonded, claims, ..Supply::new("ufun".to_string()) }
}

#[test]
fn prices_follow_the_assets() {
    let empty = books(0, 0, 0);
    assert_eq!(empty.tokens_per_share(70), Some(Decimal::one()));
    assert_eq!(empty.shares_per_token(70), Some(Decimal::one()));
    let supply = books(400, 800, 100);
    assert_eq!(supply.tokens_per_share(300), Some(Decimal::percent(250)));
    assert_eq!(supply.shares_per_token(300), Some(Decimal::percent(40)));
    let broke = books(400, 0, 100);
    assert_eq!(broke.tokens_per_share(99), None);
    assert_eq!(broke.tokens_per_share(100), Some(Decimal { atomics: 0 }));
    assert_eq!(broke.shares_per_token(100), None);
    assert_eq!(books(1, u128::MAX, 0).tokens_per_share(1), None);
}

#[test]
fn joining_and_leaving_keep_the_price() {
    let mut supply = books(7, 0, 0);
    let balance = 100;
    let before = supply.tokens_per_share(balance).unwrap();
    let bought = supply.bond(55, balance).unwrap();
    assert_eq!(bought, 3);
    assert_eq!(supply.issued, 10);
    let joined = supply.tokens_per_share(balance + 55).unwrap();
    assert!(before.atomics <= joined.atomics);
    let got = supply.unbond(bought, balance + 55).unwrap();
    assert_eq!(got, 46);
    assert!(got <= 55);
    assert_eq!(supply.claims, 46);
    let left = supply.tokens_per_share(balance + 55).unwrap();
    assert!(joined.atomics <= left.atomics);
}

#[test]
fn impossible_changes_leave_the_books_alone() {
    let mut supply = books(400, 0, 100);
    let before = supply.clone();
    assert_eq!(supply.unbond(401, 1000), None);
    assert_eq!(supply.unbond(1, 50), None);
    assert_eq!(supply.bond(1, 100), None);
    assert_eq!(supply.bond(u128::MAX, 101), None);
    assert_eq!(
        supply.claim(101),
        Err(ContractError::Std(BasicError::Underflow { minuend: 100, subtrahend: 101 }))
    );
    assert_eq!(supply, before);
    assert_eq!(supply.claim(100), Ok(()));
    assert_eq!(supply.claims, 0);
}
