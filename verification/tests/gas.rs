use wallet_sweeper::gas::{covers_fee, minimum_gas};
use wallet_sweeper::uint::U256;

#[test]
fn gas_buffer_is_one_fifth_of_the_fee() {
    assert_eq!(minimum_gas(100_000, 50), U256::from_u64(6_000_000));
}

#[test]
fn gas_buffer_rounds_down() {
    // 7 * 1 = 7, a fifth of which is 1
    assert_eq!(minimum_gas(7, 1), U256::from_u64(8));
    assert_eq!(minimum_gas(4, 1), U256::from_u64(4));
    assert_eq!(minimum_gas(0, 50), U256::zero());
}

#[test]
fn gas_buffer_does_not_wrap_for_the_largest_inputs() {
    let fee = U256::from_u64(u64::MAX).checked_times(&U256::from_u128(u128::MAX)).unwrap();
    let buffer = fee.checked_over(&U256::from_u64(5)).unwrap();
    assert_eq!(minimum_gas(u64::MAX, u128::MAX), fee.checked_plus(&buffer).unwrap());
}

#[test]
fn fee_is_covered_from_the_minimum_on() {
    assert!(covers_fee(&U256::from_u64(6_000_000), 100_000, 50));
    assert!(covers_fee(&U256::from_u64(6_000_001), 100_000, 50));
    assert!(!covers_fee(&U256::from_u64(5_999_999), 100_000, 50));
    assert!(!covers_fee(&U256::from_u64(5_000_000), 100_000, 50));
    assert!(covers_fee(&U256::zero(), 0, 0));
}
