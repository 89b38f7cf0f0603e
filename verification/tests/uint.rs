use wallet_sweeper::uint::U256;

#[test]
fn u256_from_machine_integers() {
    assert_eq!(U256::from_u64(7).limbs, [7, 0, 0, 0]);
    assert_eq!(U256::from_u128(u128::MAX).limbs, [u64::MAX, u64::MAX, 0, 0]);
    assert_eq!(U256::from_u128(1u128 << 64).limbs, [0, 1, 0, 0]);
    assert!(U256::zero().is_zero());
    assert!(!U256::from_u64(1).is_zero());
}

#[test]
fn u256_decimal_numeral() {
    assert_eq!(U256::zero().to_decimal_string(), "0");
    assert_eq!(U256::from_u64(1_000_000).to_decimal_string(), "1000000");
    assert_eq!(
        U256::from_u128(u128::MAX).to_decimal_string(),
        "340282366920938463463374607431768211455"
    );
    assert_eq!(
        (U256 { limbs: [0, 0, 1, 0] }).to_decimal_string(),
        "340282366920938463463374607431768211456"
    );
}

#[test]
fn u256_order() {
    let small = U256::from_u64(5);
    let big = U256 { limbs: [0, 0, 0, 1] };
    assert!(big.at_least(&small));
    assert!(!small.at_least(&big));
    assert!(small.at_least(&small));
    assert!(small.less_than(&big));
    assert!(!small.less_than(&small));
    assert!(small.same(&U256::from_u128(5)));
    assert!(!small.same(&big));
    let low = U256 { limbs: [u64::MAX, 0, 0, 0] };
    let high = U256 { limbs: [0, 1, 0, 0] };
    assert!(high.at_least(&low));
    assert!(low.less_than(&high));
}

#[test]
fn u256_checked_arithmetic() {
    let a = U256::from_u64(100_000);
    let b = U256::from_u64(50);
    assert_eq!(a.checked_times(&b), Some(U256::from_u64(5_000_000)));
    assert_eq!(a.checked_plus(&b), Some(U256::from_u64(100_050)));
    assert_eq!(a.checked_over(&b), Some(U256::from_u64(2_000)));
    assert_eq!(a.checked_over(&U256::zero()), None);
    assert_eq!(a.checked_times(&U256::zero()), Some(U256::zero()));
    let max = U256 { limbs: [u64::MAX; 4] };
    assert_eq!(max.checked_plus(&U256::from_u64(1)), None);
    assert_eq!(max.checked_times(&U256::from_u64(2)), None);
    assert_eq!(max.checked_times(&U256::from_u64(1)), Some(max));
    let carry = U256::from_u64(u64::MAX).checked_plus(&U256::from_u64(1)).unwrap();
    assert_eq!(carry.limbs, [0, 1, 0, 0]);
    let wide = U256::from_u128(u128::MAX).checked_times(&U256::from_u64(2)).unwrap();
    assert_eq!(wide.limbs, [u64::MAX - 1, u64::MAX, 1, 0]);
}
