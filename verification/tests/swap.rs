use std::str::FromStr;

use uniswap_v2::cpmm::{cpmm_get_amount_out, cpmm_get_limits};
use uniswap_v2::token::bytes_before;
use uniswap_v2::{
    biguint_to_u256, BigUint, SimulationError, Token, UniswapV2State, U256, UNISWAP_V2_FEE_BPS,
};

fn u256(decimal: &str) -> U256 {
    U256::from_limbs(alloy::primitives::U256::from_str(decimal).unwrap().into_limbs())
}

fn biguint(decimal: &str) -> BigUint {
    BigUint { bytes: num_bigint::BigUint::from_str(decimal).unwrap().to_bytes_be() }
}

fn decimal(number: &BigUint) -> String {
    num_bigint::BigUint::from_bytes_be(&number.bytes).to_string()
}

fn token(hex: &str, decimals: u32) -> Token {
    Token { address: tycho_common::Bytes::from_str(hex).unwrap().to_vec(), decimals }
}

fn token_0(decimals: u32) -> Token {
    token("0x0000000000000000000000000000000000000000", decimals)
}

fn token_1(decimals: u32) -> Token {
    token("0x0000000000000000000000000000000000000001", decimals)
}

fn pool(reserve0: U256, reserve1: U256) -> UniswapV2State {
    UniswapV2State::new(
        reserve0,
        reserve1,
        U256::zero(),
        U256::zero(),
        U256::zero(),
        U256::zero(),
        None,
    )
}

fn sum(a: U256, b: U256) -> U256 {
    uniswap_v2::safe_math::safe_add_u256(a, b).unwrap()
}

fn difference(a: U256, b: U256) -> U256 {
    uniswap_v2::safe_math::safe_sub_u256(a, b).unwrap()
}

fn product(state: &UniswapV2State) -> U256 {
    uniswap_v2::safe_math::safe_mul_u256(state.reserve0, state.reserve1).unwrap()
}

/// Price of token 0 in token 1, for tokens of the same decimals and reserves of one limb.
fn spot_price(state: &UniswapV2State) -> f64 {
    state.reserve1.limbs[0] as f64 / state.reserve0.limbs[0] as f64
}

fn check_amount_out(r0: &str, r1: &str, decimals0: u32, decimals1: u32, amount: &str, exp: &str) {
    let (r0, r1) = (u256(r0), u256(r1));
    let state = pool(r0, r1);

    let res = state
        .get_amount_out(biguint(amount), &token_0(decimals0), &token_1(decimals1))
        .unwrap();

    assert_eq!(decimal(&res.amount), exp);
    assert_eq!(res.new_state.reserve0, sum(r0, u256(amount)));
    assert_eq!(res.new_state.reserve1, difference(r1, u256(exp)));
    // The old state is unchanged.
    assert_eq!(state.reserve0, r0);
    assert_eq!(state.reserve1, r1);
}

#[test]
fn test_get_amount_out_same_dec() {
    check_amount_out(
        "6770398782322527849696614",
        "5124813135806900540214",
        18,
        18,
        "10000000000000000000000",
        "7535635391574243447",
    );
}

#[test]
fn test_get_amount_out_diff_dec() {
    check_amount_out(
        "33372357002392258830279",
        "43356945776493",
        18,
        6,
        "10000000000000000000",
        "12949029867",
    );
}

#[test]
fn test_get_amount_out_overflow() {
    let r0 = u256("33372357002392258830279");
    let r1 = u256("43356945776493");
    let one = num_bigint::BigUint::from(1u32);
    let max: num_bigint::BigUint = (one.clone() << 256u32) - one;
    let amount_in = BigUint { bytes: max.to_bytes_be() };
    let state = pool(r0, r1);

    let res = state.get_amount_out(amount_in, &token_0(18), &token_1(16));
    assert!(res.is_err());
    let err = res.err().unwrap();
    assert!(matches!(err, SimulationError::FatalError(_)));
}

#[test]
fn split_sale_pays_no_more() {
    let state = pool(u256("100000"), u256("200000"));
    let first = state
        .get_amount_out(biguint("400"), &token_0(18), &token_1(18))
        .unwrap();
    let second = first
        .new_state
        .get_amount_out(biguint("600"), &token_0(18), &token_1(18))
        .unwrap();
    assert_eq!(decimal(&first.amount), "794");
    assert_eq!(decimal(&second.amount), "1179");
    // At once: 1974.
}

#[test]
fn swap_keeps_thirty_ten_thousandths() {
    let state = pool(u256("36925554990922"), u256("30314846538607556521556"));
    let swap = state
        .get_amount_out(biguint("1000000"), &token_0(6), &token_1(18))
        .unwrap();
    let paid = cpmm_get_amount_out(
        u256("1000000"),
        true,
        state.reserve0,
        state.reserve1,
        30,
    )
    .unwrap();
    assert_eq!(UNISWAP_V2_FEE_BPS, 30);
    assert_eq!(biguint_to_u256(&swap.amount), paid);
}

#[test]
fn test_get_limits_price_impact() {
    let state = pool(u256("1000"), u256("100000"));

    let (amount_in, _) = state
        .get_limits(token_0(18).address, token_1(18).address)
        .unwrap();

    let result = state
        .get_amount_out(amount_in, &token_0(18), &token_1(18))
        .unwrap();

    let initial_price = spot_price(&state);
    let new_price = spot_price(&result.new_state).floor();

    let expected_price = initial_price / 10.0;
    assert!(expected_price == new_price, "Price impact not 90%.");
}

#[test]
fn swap_takes_a_fixed_gas() {
    let state = pool(u256("1000"), u256("100000"));
    let result = state
        .get_amount_out(biguint("10"), &token_0(18), &token_1(18))
        .unwrap();
    assert_eq!(decimal(&result.gas), "120000");
    assert_eq!(result.gas.bytes, vec![0x01, 0xd4, 0xc0]);
}

#[test]
fn swap_follows_the_order_of_addresses() {
    let state = pool(u256("100000"), u256("200000"));
    let forth = state
        .get_amount_out(biguint("1000"), &token_0(18), &token_1(18))
        .unwrap();
    // 1000 * 9970 * 200000 / (100000 * 10000 + 1000 * 9970)
    assert_eq!(decimal(&forth.amount), "1974");
    assert_eq!(forth.new_state.reserve0, u256("101000"));
    assert_eq!(forth.new_state.reserve1, u256("198026"));

    let back = state
        .get_amount_out(biguint("1000"), &token_1(18), &token_0(18))
        .unwrap();
    // 1000 * 9970 * 100000 / (200000 * 10000 + 1000 * 9970)
    assert_eq!(decimal(&back.amount), "496");
    assert_eq!(back.new_state.reserve0, u256("99504"));
    assert_eq!(back.new_state.reserve1, u256("201000"));
}

#[test]
fn swap_touches_reserves_only() {
    let state = UniswapV2State::new(
        u256("100000"),
        u256("200000"),
        u256("1"),
        u256("2"),
        u256("3"),
        u256("4"),
        Some(u256("5")),
    );
    let after = state
        .get_amount_out(biguint("1000"), &token_0(18), &token_1(18))
        .unwrap()
        .new_state;
    assert_eq!(after.balance0, u256("1"));
    assert_eq!(after.balance1, u256("2"));
    assert_eq!(after.liquidity, u256("3"));
    assert_eq!(after.total_supply, u256("4"));
    assert_eq!(after.k_last, Some(u256("5")));
}

#[test]
fn swap_of_nothing_is_refused() {
    let state = pool(u256("100000"), u256("200000"));
    let res = state.get_amount_out(biguint("0"), &token_0(18), &token_1(18));
    assert!(
        matches!(res, Err(SimulationError::InvalidInput(ref x)) if x == "Amount in cannot be zero")
    );
}

#[test]
fn swap_in_an_empty_pool_is_refused() {
    for state in [pool(u256("0"), u256("10")), pool(u256("10"), u256("0"))] {
        let res = state.get_amount_out(biguint("1"), &token_0(18), &token_1(18));
        assert!(
            matches!(res, Err(SimulationError::RecoverableError(ref x)) if x == "No liquidity")
        );
    }
}

#[test]
fn swap_keeps_the_product_and_returns_gain_nothing() {
    let state = pool(u256("100000"), u256("200000"));
    let there = state
        .get_amount_out(biguint("1000"), &token_0(18), &token_1(18))
        .unwrap();
    assert!(!product(&there.new_state).less_than(&product(&state)));
    let back = there
        .new_state
        .get_amount_out(there.amount, &token_1(18), &token_0(18))
        .unwrap();
    assert!(biguint_to_u256(&back.amount).less_than(&u256("1000")));
}

#[test]
fn swap_of_more_pays_more() {
    let state = pool(u256("100000"), u256("200000"));
    let mut last = U256::zero();
    for amount in ["1", "10", "100", "1000", "10000", "100000", "1000000"] {
        let res = state
            .get_amount_out(biguint(amount), &token_0(18), &token_1(18))
            .unwrap();
        let paid = biguint_to_u256(&res.amount);
        assert!(!paid.less_than(&last));
        assert!(paid.less_than(&state.reserve1));
        last = paid;
    }
}

#[test]
fn swap_is_the_same_in_the_mirror() {
    let state = pool(u256("123456"), u256("654321"));
    let mirrored = pool(u256("654321"), u256("123456"));
    let a = state
        .get_amount_out(biguint("777"), &token_0(18), &token_1(18))
        .unwrap();
    let b = mirrored
        .get_amount_out(biguint("777"), &token_1(18), &token_0(18))
        .unwrap();
    assert_eq!(decimal(&a.amount), decimal(&b.amount));
    assert_eq!(a.new_state.reserve0, b.new_state.reserve1);
    assert_eq!(a.new_state.reserve1, b.new_state.reserve0);
}

#[test]
fn limits_are_hundredths_of_the_reserves() {
    let state = pool(u256("1000"), u256("100000"));
    let (amount_in, amount_out) = state
        .get_limits(token_0(18).address, token_1(18).address)
        .unwrap();
    assert_eq!(decimal(&amount_in), "2160");
    assert_eq!(decimal(&amount_out), "68000");
    let (amount_in, amount_out) = state
        .get_limits(token_1(18).address, token_0(18).address)
        .unwrap();
    assert_eq!(decimal(&amount_in), "216000");
    assert_eq!(decimal(&amount_out), "680");
}

#[test]
fn limits_of_an_empty_pool_are_zero() {
    let (amount_in, amount_out) = cpmm_get_limits(vec![0], vec![1], u256("0"), u256("7")).unwrap();
    assert_eq!(decimal(&amount_in), "0");
    assert_eq!(decimal(&amount_out), "0");
    assert_eq!(amount_in.bytes, vec![0]);
}

#[test]
fn limits_of_a_huge_pool_overflow() {
    let huge = U256::from_limbs([0, 0, 0, u64::MAX]);
    let res = cpmm_get_limits(vec![0], vec![1], huge, u256("7"));
    assert!(
        matches!(res, Err(SimulationError::FatalError(ref x)) if x == "U256 arithmetic overflow")
    );
}

#[test]
fn limit_takes_nine_tenths_off_the_price_at_most() {
    for (r0, r1) in [(1000u64, 100000u64), (7, 13), (999_999_937, 12)] {
        let state = pool(U256::from_u64(r0), U256::from_u64(r1));
        let (limit, _) = state
            .get_limits(token_0(18).address, token_1(18).address)
            .unwrap();
        let after = state
            .get_amount_out(limit, &token_0(18), &token_1(18))
            .unwrap()
            .new_state;
        let (a0, a1) = (after.reserve0.limbs[0] as u128, after.reserve1.limbs[0] as u128);
        assert!(r1 as u128 * a0 <= 10 * a1 * r0 as u128);
    }
}

#[test]
fn addresses_are_in_dictionary_order() {
    assert!(bytes_before(&vec![1, 2], &vec![1, 3]));
    assert!(bytes_before(&vec![1], &vec![1, 0]));
    assert!(bytes_before(&vec![], &vec![0]));
    assert!(!bytes_before(&vec![1, 3], &vec![1, 2]));
    assert!(!bytes_before(&vec![2], &vec![1, 9]));
    assert!(!bytes_before(&vec![5, 5], &vec![5, 5]));
    assert!(!bytes_before(&vec![], &vec![]));
    // Of three in a row the first comes before the last.
    assert!(bytes_before(&vec![1, 3], &vec![2]));
    assert!(bytes_before(&vec![1, 2], &vec![2]));
    let (a, b) = (token("0xA0b86991c6218b36c1d19D4a2e9Eb0cE3606eB48", 6), token_1(18));
    assert_eq!(
        bytes_before(&a.address, &b.address),
        tycho_common::Bytes::from(a.address.clone()) < tycho_common::Bytes::from(b.address.clone())
    );
}
