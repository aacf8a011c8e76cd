use uniswap_v2::model::MAX_RESERVE;
use uniswap_v2::safe_math::{safe_add_u256, safe_mul_u256};
use uniswap_v2::{SimulationError, UniswapV2State, U256};

fn n(value: u64) -> U256 {
    U256::from_u64(value)
}

fn pool(
    reserves: (u64, u64),
    balances: (u64, u64),
    liquidity: u64,
    total_supply: u64,
    k_last: Option<u64>,
) -> UniswapV2State {
    UniswapV2State::new(
        n(reserves.0),
        n(reserves.1),
        n(balances.0),
        n(balances.1),
        n(liquidity),
        n(total_supply),
        k_last.map(n),
    )
}

fn receiver() -> Option<Vec<u8>> {
    UniswapV2State::fee_to().map(|address| address.bytes.to_vec())
}

fn is_fatal<T>(res: Result<T, SimulationError>, message: &str) -> bool {
    matches!(res, Err(SimulationError::FatalError(ref x)) if x == message)
}

#[test]
fn the_receiver_is_the_zero_address() {
    assert_eq!(UniswapV2State::fee_to().unwrap().bytes, [0u8; 20]);
}

#[test]
fn update_sets_reserves() {
    let mut state = pool((1, 2), (3, 4), 5, 6, Some(7));
    state.update(n(30), n(40), n(0), n(0)).unwrap();
    assert_eq!(state, pool((30, 40), (3, 4), 5, 6, Some(7)));
    state.update(n(30), n(40), n(0), n(0)).unwrap();
    assert_eq!(state, pool((30, 40), (3, 4), 5, 6, Some(7)));
}

#[test]
fn update_takes_112_bits() {
    let mut state = pool((1, 2), (3, 4), 5, 6, None);
    let most = U256::from_u128(MAX_RESERVE);
    let more = safe_add_u256(most, n(1)).unwrap();
    assert_eq!(more, U256::from_limbs([0, 1 << 48, 0, 0]));
    assert!(is_fatal(state.update(more, n(0), n(0), n(0)), "overflow"));
    assert!(is_fatal(state.update(n(0), more, n(0), n(0)), "overflow"));
    assert_eq!(state, pool((1, 2), (3, 4), 5, 6, None));
    state.update(most, most, n(0), n(0)).unwrap();
    assert_eq!(state.reserve0, most);
    assert_eq!(state.reserve1, most);
}

#[test]
fn first_mint_issues_the_root_less_the_minimum() {
    let mut state = pool((0, 0), (4000, 9000), 0, 0, None);
    assert_eq!(state.mint(None).unwrap(), n(5000));
    assert_eq!(state, pool((4000, 9000), (4000, 9000), 0, 6000, None));
}

#[test]
fn first_mint_with_a_receiver_records_the_product() {
    let mut state = pool((0, 0), (4000, 9000), 0, 0, None);
    assert_eq!(state.mint(receiver()).unwrap(), n(5000));
    assert_eq!(state, pool((4000, 9000), (4000, 9000), 0, 6000, Some(36_000_000)));
    // Nothing is due at once, so another mint comes to an end.
    state.balance0 = n(8000);
    state.balance1 = n(18000);
    assert_eq!(state.mint(receiver()).unwrap(), n(6000));
}

#[test]
fn first_mint_of_the_minimum_fails_after_locking_it() {
    let mut state = pool((0, 0), (1000, 1000), 0, 0, None);
    assert!(is_fatal(state.mint(None), "Insufficient liquidity minted"));
    assert_eq!(state, pool((0, 0), (1000, 1000), 0, 1000, None));
}

#[test]
fn first_mint_below_the_minimum_fails() {
    let mut state = pool((0, 0), (999, 1000), 0, 0, None);
    assert!(is_fatal(state.mint(None), "U256 arithmetic overflow"));
    assert_eq!(state, pool((0, 0), (999, 1000), 0, 0, None));
}

#[test]
fn later_mint_issues_the_lesser_share() {
    let mut state = pool((1000, 2000), (1100, 2600), 7, 500, None);
    // 100 * 500 / 1000 = 50 and 600 * 500 / 2000 = 150.
    assert_eq!(state.mint(None).unwrap(), n(50));
    assert_eq!(state, pool((1100, 2600), (1100, 2600), 7, 550, None));
    let mut state = pool((1000, 2000), (1600, 2100), 7, 500, None);
    // 600 * 500 / 1000 = 300 and 100 * 500 / 2000 = 25.
    assert_eq!(state.mint(None).unwrap(), n(25));
}

#[test]
fn mint_without_a_receiver_wipes_the_product() {
    let mut state = pool((1000, 1000), (1100, 1100), 0, 500, Some(9));
    assert_eq!(state.mint(None).unwrap(), n(50));
    assert_eq!(state.k_last, Some(n(0)));
    let mut state = pool((1000, 1000), (1100, 1100), 0, 500, Some(0));
    state.mint(None).unwrap();
    assert_eq!(state.k_last, Some(n(0)));
}

#[test]
fn mint_fails_where_reserves_are_not_covered() {
    let start = pool((1000, 1000), (999, 2000), 0, 500, Some(1));
    let mut state = start;
    assert!(is_fatal(state.mint(receiver()), "U256 arithmetic overflow"));
    assert_eq!(state, start);
}

#[test]
fn mint_in_a_pool_without_reserves_divides_by_zero() {
    let start = pool((0, 1000), (10, 2000), 0, 500, None);
    let mut state = start;
    assert!(is_fatal(state.mint(None), "Division by zero"));
    assert_eq!(state, start);
}

#[test]
fn mint_of_nothing_fails() {
    let start = pool((1000, 1000), (1000, 1000), 0, 500, None);
    let mut state = start;
    assert!(is_fatal(state.mint(None), "Insufficient liquidity minted"));
    assert_eq!(state, start);
}

#[test]
fn mint_beyond_112_bits_keeps_the_supply_it_issued() {
    let half = U256::from_limbs([0, 1 << 47, 0, 0]);
    let whole = U256::from_limbs([0, 1 << 48, 0, 0]);
    let mut state = UniswapV2State::new(half, half, whole, whole, n(0), n(2), None);
    assert!(is_fatal(state.mint(None), "overflow"));
    assert_eq!(state.total_supply, n(4));
    assert_eq!(state.reserve0, half);
    assert_eq!(state.reserve1, half);
}

#[test]
fn mint_needs_room_in_the_balance_of_tokens() {
    let start = UniswapV2State::new(
        n(1000),
        n(1000),
        n(1100),
        n(1100),
        U256::from_limbs([u64::MAX, u64::MAX, u64::MAX, u64::MAX]),
        n(500),
        None,
    );
    let mut state = start;
    assert!(is_fatal(state.mint(None), "U256 arithmetic overflow"));
    assert_eq!(state, start);
}

#[test]
fn fee_step_says_whether_a_fee_is_taken() {
    let mut state = pool((1000, 1000), (1000, 1000), 0, 500, Some(7));
    assert!(!state.mint_fee(n(5), n(5), None).unwrap());
    assert_eq!(state.k_last, Some(n(0)));
    assert!(state.mint_fee(n(5), n(5), receiver()).unwrap());
    assert_eq!(state, pool((1000, 1000), (1000, 1000), 0, 500, Some(0)));
    let mut state = pool((1000, 1000), (1000, 1000), 0, 500, None);
    assert!(!state.mint_fee(n(5), n(5), None).unwrap());
    assert!(state.mint_fee(n(5), n(5), receiver()).unwrap());
    assert_eq!(state.k_last, None);
}

#[test]
fn fee_that_is_due_starts_a_mint() {
    // 10000 * (1100 - 1000) / (5 * 1100 + 1000) = 153 tokens are due at the reserves given.
    let mut state = pool((1000, 1000), (1100, 1100), 0, 10000, Some(1_000_000));
    assert!(state.mint_fee(n(1100), n(1100), receiver()).unwrap());
    assert_eq!(state, pool((1100, 1100), (1100, 1100), 0, 11000, Some(1_210_000)));
}

#[test]
fn fee_that_is_due_is_dropped_where_the_mint_fails() {
    let start = pool((1100, 1100), (0, 0), 0, 10000, Some(1_000_000));
    let mut state = start;
    assert!(state.mint_fee(n(1100), n(1100), receiver()).unwrap());
    assert_eq!(state, start);
}

#[test]
fn fee_step_fails_on_overflow() {
    let start = pool((1, 1), (1, 1), 0, 10000, Some(1));
    let mut state = start;
    let huge = U256::from_limbs([0, 0, 1, 0]);
    assert!(is_fatal(state.mint_fee(huge, huge, receiver()), "U256 arithmetic overflow"));
    assert_eq!(state, start);
}

#[test]
fn burn_pays_the_share_of_the_balances() {
    let mut state = pool((1100, 2200), (1100, 2200), 1000, 11000, None);
    assert_eq!(state.burn(None).unwrap(), (n(100), n(200)));
    assert_eq!(state, pool((1000, 2000), (1000, 2000), 0, 10000, None));
}

#[test]
fn burn_with_a_receiver_records_the_product() {
    let mut state = pool((1100, 1100), (1100, 1100), 1000, 11000, Some(1_210_000));
    assert_eq!(state.burn(receiver()).unwrap(), (n(100), n(100)));
    assert_eq!(state, pool((1000, 1000), (1000, 1000), 0, 10000, Some(1_000_000)));
}

#[test]
fn burn_of_nothing_fails() {
    let start = pool((1100, 1100), (1100, 1100), 0, 11000, None);
    let mut state = start;
    assert!(is_fatal(state.burn(None), "Insufficient liquidity burned"));
    assert_eq!(state, start);
}

#[test]
fn burn_without_supply_divides_by_zero() {
    let start = pool((1100, 1100), (1100, 1100), 10, 0, None);
    let mut state = start;
    assert!(is_fatal(state.burn(None), "Division by zero"));
    assert_eq!(state, start);
}

#[test]
fn burn_of_more_than_the_supply_fails_with_the_tokens_gone() {
    let mut state = pool((100, 100), (100, 100), 20, 10, None);
    assert!(is_fatal(state.burn(None), "U256 arithmetic overflow"));
    assert_eq!(state, pool((100, 100), (100, 100), 0, 10, None));
}

#[test]
fn mint_then_burn_returns_no_more_than_was_paid() {
    let mut state = pool((1000, 3000), (1777, 5111), 0, 1234, None);
    let issued = state.mint(None).unwrap();
    state.liquidity = issued;
    let (amount0, amount1) = state.burn(None).unwrap();
    assert!(!n(777).less_than(&amount0));
    assert!(!n(2111).less_than(&amount1));

    let mut state = pool((0, 0), (4000, 9000), 0, 0, None);
    state.liquidity = state.mint(None).unwrap();
    let (amount0, amount1) = state.burn(None).unwrap();
    // 5000 of 6000 tokens.
    assert_eq!((amount0, amount1), (n(3333), n(7500)));
}

#[test]
fn value_without_a_fee_is_the_share_of_the_reserves() {
    let state = pool((1100, 2200), (0, 0), 0, 10000, Some(1_000_000));
    let value = state.compute_liquidity_value(n(5000), false, Some(n(1_000_000))).unwrap();
    assert_eq!(value, (n(550), n(1100)));
    // The whole supply is worth the reserves.
    let value = state.compute_liquidity_value(n(10000), false, None).unwrap();
    assert_eq!(value, (n(1100), n(2200)));
}

#[test]
fn value_with_a_fee_is_diluted() {
    let mut state = pool((1100, 1100), (0, 0), 0, 10000, Some(1_000_000));
    // 153 tokens are due, and 1100 * 5000 / 10153 = 541.
    let value = state.compute_liquidity_value(n(5000), true, Some(n(1_000_000))).unwrap();
    assert_eq!(value, (n(541), n(541)));
    let before = state;
    assert_eq!(state.get_liquidity_value(n(5000)).unwrap(), (n(541), n(541)));
    assert_eq!(state, before);
    // Nothing is due without growth or without a record.
    for k_last in [Some(n(1_210_000)), Some(n(0)), None] {
        let value = state.compute_liquidity_value(n(5000), true, k_last).unwrap();
        assert_eq!(value, (n(550), n(550)));
    }
}

#[test]
fn value_fails_on_overflow_and_without_supply() {
    let state = pool((1100, 1100), (0, 0), 0, 0, None);
    assert!(is_fatal(state.compute_liquidity_value(n(1), false, None), "Division by zero"));
    let huge = U256::from_limbs([0, 0, 0, u64::MAX]);
    assert!(is_fatal(
        state.compute_liquidity_value(huge, false, None),
        "U256 arithmetic overflow"
    ));
}

#[test]
fn burn_pays_what_the_tokens_are_worth() {
    let mut state = pool((1100, 2200), (1100, 2200), 777, 11000, None);
    let value = state.get_liquidity_value(n(777)).unwrap();
    assert_eq!(state.burn(receiver()).unwrap(), value);
}

#[test]
fn states_are_equal_if_all_numbers_are() {
    let state = pool((1, 2), (3, 4), 5, 6, Some(7));
    assert_eq!(state, pool((1, 2), (3, 4), 5, 6, Some(7)));
    for other in [
        pool((9, 2), (3, 4), 5, 6, Some(7)),
        pool((1, 9), (3, 4), 5, 6, Some(7)),
        pool((1, 2), (9, 4), 5, 6, Some(7)),
        pool((1, 2), (3, 9), 5, 6, Some(7)),
        pool((1, 2), (3, 4), 9, 6, Some(7)),
        pool((1, 2), (3, 4), 5, 9, Some(7)),
        pool((1, 2), (3, 4), 5, 6, Some(9)),
        pool((1, 2), (3, 4), 5, 6, None),
    ] {
        assert_ne!(state, other);
    }
}

#[test]
fn mint_up_to_the_largest_reserves_records_their_product() {
    let most = U256::from_u128(MAX_RESERVE);
    let half = U256::from_u128(MAX_RESERVE / 2);
    let mut state = UniswapV2State::new(half, half, most, most, n(0), n(2), None);
    assert_eq!(state.mint(receiver()).unwrap(), n(2));
    assert_eq!(state.reserve0, most);
    // (2^112 - 1)^2 = 2^224 - 2^113 + 1
    assert_eq!(state.k_last, Some(safe_mul_u256(most, most).unwrap()));
    assert_eq!(state.k_last, Some(U256::from_limbs([1, u64::MAX << 49, u64::MAX, (1 << 32) - 1])));
}

#[test]
fn second_mint_or_burn_changes_nothing() {
    for fee_to in [None, receiver()] {
        let mut state = pool((1000, 2000), (1100, 2600), 7, 500, None);
        state.mint(fee_to.clone()).unwrap();
        let after = state;
        assert!(is_fatal(state.mint(fee_to.clone()), "Insufficient liquidity minted"));
        assert_eq!(state, after);

        let mut state = pool((1100, 2200), (1100, 2200), 1000, 11000, None);
        state.burn(fee_to.clone()).unwrap();
        let after = state;
        assert!(is_fatal(state.burn(fee_to), "Insufficient liquidity burned"));
        assert_eq!(state, after);
    }
    // With the whole supply gone there is nothing to divide by.
    let mut state = pool((10, 10), (10, 10), 5, 5, None);
    state.burn(None).unwrap();
    let after = state;
    assert!(is_fatal(state.burn(None), "Division by zero"));
    assert_eq!(state, after);
}

#[test]
fn split_position_loses_one_unit_at_most() {
    let state = pool((1100, 2201), (0, 0), 0, 10000, None);
    let whole = state.compute_liquidity_value(n(5000), false, None).unwrap();
    let a = state.compute_liquidity_value(n(2345), false, None).unwrap();
    let b = state.compute_liquidity_value(n(2655), false, None).unwrap();
    assert_eq!((whole.0, a.0, b.0), (n(550), n(257), n(292)));
    assert_eq!((whole.1, a.1, b.1), (n(1100), n(516), n(584)));
}

#[test]
fn mint_tells_whether_it_ends() {
    let state = pool((1100, 1100), (1100, 1100), 0, 10000, Some(1_000_000));
    assert!(state.fee_is_due(n(1100), n(1100), true));
    assert!(!state.fee_is_due(n(1100), n(1100), false));
    assert!(!state.fee_is_due(n(1000), n(1000), true));
    assert!(!state.mint_ends(true));
    assert!(state.mint_ends(false));
    // Not covered, or not grown.
    assert!(pool((1100, 1100), (1100, 1099), 0, 10000, Some(1_000_000)).mint_ends(true));
    assert!(pool((1100, 1100), (1100, 1100), 0, 10000, Some(1_210_000)).mint_ends(true));
    // What is due cannot be computed.
    let huge = U256::from_limbs([0, 0, 1, 0]);
    assert!(!state.fee_is_due(huge, huge, true));
}
