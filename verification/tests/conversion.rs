use wallet_sweeper::decimal::{divide_parsed, u256_to_decimal, Amount};
use wallet_sweeper::error::ErrorKind;
use wallet_sweeper::uint::U256;

fn as_decimal(a: &Amount) -> rust_decimal::Decimal {
    rust_decimal::Decimal::from_i128_with_scale(a.mantissa as i128, a.scale)
}

#[test]
fn one_million_units_with_six_decimals_is_one() {
    let got = u256_to_decimal(&U256::from_u64(1_000_000), 6).unwrap();
    assert_eq!(as_decimal(&got), "1.0".parse::<rust_decimal::Decimal>().unwrap());
    assert!(got.same_value(&Amount::new(10, 1).unwrap()));
}

#[test]
fn one_unit_with_eighteen_decimals() {
    let got = u256_to_decimal(&U256::from_u64(1), 18).unwrap();
    assert_eq!(
        as_decimal(&got),
        "0.000000000000000001".parse::<rust_decimal::Decimal>().unwrap()
    );
    assert!(got.same_value(&Amount::new(1, 18).unwrap()));
}

#[test]
fn precision_above_the_scale_limit_is_an_internal_error() {
    let err = u256_to_decimal(&U256::from_u64(1), 29).unwrap_err();
    assert_eq!(err.kind(), ErrorKind::Internal);
    assert_eq!(err.text(), "Decimal overflow");
}

#[test]
fn raw_amount_beyond_96_bits_is_a_parse_error() {
    let big = U256 { limbs: [0, 0, 1, 0] };
    let err = u256_to_decimal(&big, 6).unwrap_err();
    assert_eq!(err.kind(), ErrorKind::Internal);
    assert_eq!(err.text(), "Decimal parse error");
}

#[test]
fn zero_converts_to_zero() {
    let got = u256_to_decimal(&U256::zero(), 6).unwrap();
    assert!(got.same_value(&Amount::zero()));
}

#[test]
fn parsed_amount_is_divided_by_the_power_of_ten() {
    let raw = U256::from_u64(2_500_000);
    let q = divide_parsed(&raw, 6, Amount::new(2_500_000, 0)).unwrap();
    assert_eq!(as_decimal(&q), "2.5".parse::<rust_decimal::Decimal>().unwrap());
    let e = divide_parsed(&raw, 6, None).unwrap_err();
    assert_eq!(e.text(), "Decimal parse error");
    let e = divide_parsed(&raw, 6, Some(Amount { mantissa: 1, scale: 99 })).unwrap_err();
    assert_eq!(e.text(), "Decimal parse error");
    let e = divide_parsed(&raw, 6, Amount::new(2_500_001, 0)).unwrap_err();
    assert_eq!(e.text(), "Decimal division is not exact");
    let e = divide_parsed(&raw, 30, Amount::new(2_500_000, 0)).unwrap_err();
    assert_eq!(e.text(), "Decimal overflow");
}

#[test]
fn largest_amount_of_96_bits_converts_with_every_precision() {
    let max = U256 { limbs: [u64::MAX, 0xFFFF_FFFF, 0, 0] };
    for decimals in [0u8, 6, 18, 28] {
        let q = u256_to_decimal(&max, decimals).unwrap();
        let expected = rust_decimal::Decimal::from_i128_with_scale(
            0xFFFF_FFFF_FFFF_FFFF_FFFF_FFFF,
            decimals as u32,
        );
        assert_eq!(as_decimal(&q), expected);
    }
}
