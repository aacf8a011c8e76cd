use std::str::FromStr;

use uniswap_v2::safe_math::{safe_add_u256, safe_div_u256, safe_mul_u256, safe_sub_u256};
use uniswap_v2::solidity_math::sqrt_u256;
use uniswap_v2::{biguint_to_u256, u256_to_biguint, BigUint, SimulationError, U256};

fn n(value: u64) -> U256 {
    U256::from_u64(value)
}

fn u256(decimal: &str) -> U256 {
    U256::from_limbs(alloy::primitives::U256::from_str(decimal).unwrap().into_limbs())
}

fn max() -> U256 {
    U256::from_limbs([u64::MAX; 4])
}

fn is_fatal(res: Result<U256, SimulationError>, message: &str) -> bool {
    matches!(res, Err(SimulationError::FatalError(ref x)) if x == message)
}

#[test]
fn addition_carries() {
    let res = safe_add_u256(U256::from_limbs([u64::MAX, u64::MAX, 0, 0]), n(2)).unwrap();
    assert_eq!(res, U256::from_limbs([1, 0, 1, 0]));
    assert!(is_fatal(safe_add_u256(max(), n(1)), "U256 arithmetic overflow"));
}

#[test]
fn subtraction_borrows() {
    let res = safe_sub_u256(U256::from_limbs([0, 0, 1, 0]), n(1)).unwrap();
    assert_eq!(res, U256::from_limbs([u64::MAX, u64::MAX, 0, 0]));
    assert!(is_fatal(safe_sub_u256(n(1), n(2)), "U256 arithmetic overflow"));
    assert_eq!(safe_sub_u256(n(2), n(2)).unwrap(), U256::zero());
}

#[test]
fn multiplication_spans_limbs() {
    let limb = U256::from_limbs([0, 1, 0, 0]);
    assert_eq!(safe_mul_u256(limb, limb).unwrap(), U256::from_limbs([0, 0, 1, 0]));
    let half = U256::from_limbs([0, 0, 1, 0]);
    assert!(is_fatal(safe_mul_u256(half, half), "U256 arithmetic overflow"));
}

#[test]
fn division_rounds_down() {
    assert_eq!(safe_div_u256(n(7), n(2)).unwrap(), n(3));
    let half = U256::from_limbs([0, 0, 1, 0]);
    assert_eq!(safe_div_u256(half, n(2)).unwrap(), U256::from_limbs([0, 1 << 63, 0, 0]));
    assert!(is_fatal(safe_div_u256(n(7), n(0)), "Division by zero"));
}

#[test]
fn comparison_starts_at_the_highest_limb() {
    assert!(U256::from_limbs([9, 9, 9, 0]).less_than(&U256::from_limbs([0, 0, 0, 1])));
    assert!(!U256::from_limbs([0, 0, 0, 1]).less_than(&U256::from_limbs([9, 9, 9, 0])));
    assert!(n(1).less_than(&n(2)));
    assert!(!n(2).less_than(&n(2)));
    assert!(U256::zero().is_zero());
    assert!(!U256::from_limbs([0, 0, 0, 1]).is_zero());
    assert_eq!(U256::from_u128(u128::MAX), U256::from_limbs([u64::MAX, u64::MAX, 0, 0]));
    assert_eq!(U256::from_u128(1 << 64), U256::from_limbs([0, 1, 0, 0]));
}

#[test]
fn roots_are_rounded_down() {
    for (value, root) in
        [(0, 0), (1, 1), (2, 1), (3, 1), (4, 2), (8, 2), (9, 3), (15, 3), (16, 4), (36000000, 6000)]
    {
        assert_eq!(sqrt_u256(n(value)), n(root));
    }
    assert_eq!(sqrt_u256(max()), U256::from_u128(u128::MAX));
    assert_eq!(
        sqrt_u256(u256("1000000000000000000000000000000000000000000")),
        u256("1000000000000000000000")
    );
    assert_eq!(
        sqrt_u256(u256("999999999999999999999999999999999999999999")),
        u256("999999999999999999999")
    );
}

#[test]
fn numbers_of_any_size_are_written_without_leading_zeros() {
    assert_eq!(u256_to_biguint(n(0)).bytes, vec![0]);
    assert_eq!(u256_to_biguint(n(256)).bytes, vec![1, 0]);
    assert_eq!(u256_to_biguint(U256::from_limbs([0, 1, 0, 0])).bytes, vec![1, 0, 0, 0, 0, 0, 0, 0, 0]);
    assert_eq!(u256_to_biguint(max()).bytes, vec![0xff; 32]);
}

#[test]
fn numbers_of_any_size_are_read_back() {
    for value in [n(0), n(1), n(1 << 40), U256::from_limbs([1, 2, 3, 4]), max()] {
        assert_eq!(biguint_to_u256(&u256_to_biguint(value)), value);
    }
    assert_eq!(biguint_to_u256(&BigUint { bytes: vec![1, 2, 3] }), n(0x010203));
}
