use wallet_sweeper::decimal::{power_of_ten, settle_quotient, Amount, MAX_MANTISSA, MAX_SCALE};
use wallet_sweeper::uint::U256;

fn amount(mantissa: u128, scale: u32) -> Amount {
    Amount::new(mantissa, scale).unwrap()
}

#[test]
fn amount_limits() {
    assert!(Amount::new(MAX_MANTISSA, MAX_SCALE).is_some());
    assert!(Amount::new(MAX_MANTISSA + 1, 0).is_none());
    assert!(Amount::new(0, MAX_SCALE + 1).is_none());
    assert!(amount(1, 0).is_valid());
    assert!(!(Amount { mantissa: 1, scale: 29 }).is_valid());
}

#[test]
fn amounts_compare_as_numbers() {
    assert!(amount(1, 0).same_value(&amount(10, 1)));
    assert!(amount(1, 0).same_value(&amount(1_000_000, 6)));
    assert!(!amount(1, 0).same_value(&amount(1, 1)));
    assert!(amount(1, 1).less_than(&amount(1, 0)));
    assert!(amount(99, 3).less_than(&amount(1, 1)));
    assert!(!amount(1, 1).less_than(&amount(100, 3)));
    assert!(amount(0, 5).same_value(&Amount::zero()));
}

#[test]
fn scaled_value_is_in_units_of_the_smallest_place() {
    assert_eq!(amount(1, 28).scaled_u256(), U256::from_u64(1));
    assert_eq!(amount(1, 0).scaled_u256(), U256::from_u128(power_of_ten(28)));
    assert_eq!(amount(25, 1).scaled_u256(), U256::from_u128(25 * power_of_ten(27)));
}

#[test]
fn powers_of_ten() {
    assert_eq!(power_of_ten(0), 1);
    assert_eq!(power_of_ten(6), 1_000_000);
    assert_eq!(power_of_ten(28), 10_000_000_000_000_000_000_000_000_000);
}

#[test]
fn sums_are_exact() {
    let s = amount(15, 1).checked_sum(&amount(25, 2)).unwrap();
    assert!(s.same_value(&amount(175, 2)));
    let s = amount(1, 18).checked_sum(&amount(1, 0)).unwrap();
    assert_eq!(s, amount(1_000_000_000_000_000_001, 18));
}

#[test]
fn sum_beyond_the_limits_is_refused() {
    assert_eq!(amount(MAX_MANTISSA, 0).checked_sum(&amount(1, 0)), None);
    assert_eq!(amount(MAX_MANTISSA, 0).checked_sum(&amount(1, 1)), None);
}

#[test]
fn settled_sum_keeps_only_an_exact_sum() {
    let a = amount(1, 0);
    let b = amount(2, 0);
    assert_eq!(a.settle_sum(&b, Some(amount(3, 0))), Some(amount(3, 0)));
    assert_eq!(a.settle_sum(&b, Some(amount(30, 1))), Some(amount(30, 1)));
    assert_eq!(a.settle_sum(&b, Some(amount(4, 0))), None);
    assert_eq!(a.settle_sum(&b, None), None);
}

#[test]
fn settled_quotient_keeps_only_an_exact_quotient() {
    let raw = U256::from_u64(1_000_000);
    assert_eq!(settle_quotient(&raw, 6, Some(amount(1, 0))), Ok(amount(1, 0)));
    assert_eq!(settle_quotient(&raw, 6, Some(amount(1_000_000, 6))), Ok(amount(1_000_000, 6)));
    let e = settle_quotient(&raw, 6, Some(amount(2, 0))).unwrap_err();
    assert_eq!(e.text(), "Decimal division is not exact");
    let e = settle_quotient(&raw, 6, None).unwrap_err();
    assert_eq!(e.text(), "Decimal overflow");
    let e = settle_quotient(&raw, 29, Some(amount(1, 0))).unwrap_err();
    assert_eq!(e.text(), "Decimal overflow");
    let e = settle_quotient(&raw, 6, Some(Amount { mantissa: 1, scale: 40 })).unwrap_err();
    assert_eq!(e.text(), "Decimal division is not exact");
    let huge = U256 { limbs: [0, 0, 0, 1] };
    assert!(settle_quotient(&huge, 0, Some(amount(1, 28))).is_err());
}
