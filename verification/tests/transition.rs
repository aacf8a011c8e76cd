use std::collections::HashMap;

use uniswap_v2::{ProtocolStateDelta, TransitionError, UniswapV2State, U256};

fn n(value: u64) -> U256 {
    U256::from_u64(value)
}

fn state(reserve0: u64, reserve1: u64) -> UniswapV2State {
    UniswapV2State::new(n(reserve0), n(reserve1), n(1), n(2), n(3), n(4), Some(n(5)))
}

fn delta(attributes: HashMap<String, Vec<u8>>) -> ProtocolStateDelta {
    let mut delta = ProtocolStateDelta::new();
    for (name, value) in attributes {
        delta.set_attribute(name, value);
    }
    delta
}

#[test]
fn test_delta_transition() {
    let mut state = state(1000, 1000);
    let attributes: HashMap<String, Vec<u8>> = vec![
        ("reserve0".to_string(), 1500_u64.to_be_bytes().to_vec()),
        ("reserve1".to_string(), 2000_u64.to_be_bytes().to_vec()),
    ]
    .into_iter()
    .collect();

    let res = state.delta_transition(delta(attributes));

    assert!(res.is_ok());
    assert_eq!(state.reserve0, n(1500));
    assert_eq!(state.reserve1, n(2000));
}

#[test]
fn test_delta_transition_missing_attribute() {
    let mut state = state(1000, 1000);
    let attributes: HashMap<String, Vec<u8>> =
        vec![("reserve0".to_string(), 1500_u64.to_be_bytes().to_vec())].into_iter().collect();

    let res = state.delta_transition(delta(attributes));

    assert!(res.is_err());
    // It errors for the missing reserve1 attribute.
    match res {
        Err(e) => {
            assert!(matches!(e, TransitionError::MissingAttribute(ref x) if x == "reserve1"))
        }
        _ => panic!("Test failed: was expecting an Err value"),
    };
}

#[test]
fn failed_transition_changes_nothing() {
    let mut pool = state(1000, 1000);
    let attributes: HashMap<String, Vec<u8>> = vec![
        ("reserve1".to_string(), vec![1]),
        ("balance0".to_string(), vec![2]),
    ]
    .into_iter()
    .collect();
    let res = pool.delta_transition(delta(attributes));
    assert!(matches!(res, Err(TransitionError::MissingAttribute(ref x)) if x == "reserve0"));
    assert_eq!(pool, state(1000, 1000));
}

#[test]
fn transition_sets_what_the_delta_holds() {
    let mut pool = state(1000, 1000);
    let attributes: HashMap<String, Vec<u8>> = vec![
        ("reserve0".to_string(), vec![1, 0]),
        ("reserve1".to_string(), vec![]),
        ("balance0".to_string(), vec![0xff; 32]),
        ("balance1".to_string(), vec![0, 0, 7]),
        ("liquidity".to_string(), vec![1, 0, 0, 0, 0, 0, 0, 0, 0]),
        ("other".to_string(), vec![0; 64]),
    ]
    .into_iter()
    .collect();
    let expected = UniswapV2State::new(
        n(256),
        n(0),
        U256::from_limbs([u64::MAX; 4]),
        n(7),
        U256::from_limbs([0, 1, 0, 0]),
        n(10000),
        Some(n(5)),
    );
    pool.delta_transition(delta(attributes.clone())).unwrap();
    assert_eq!(pool, expected);
    pool.delta_transition(delta(attributes)).unwrap();
    assert_eq!(pool, expected);
}

#[test]
fn transition_keeps_what_the_delta_lacks() {
    let mut pool = state(1000, 1000);
    let attributes: HashMap<String, Vec<u8>> =
        vec![("reserve0".to_string(), vec![8]), ("reserve1".to_string(), vec![9])]
            .into_iter()
            .collect();
    pool.delta_transition(delta(attributes)).unwrap();
    assert_eq!(pool.balance0, n(1));
    assert_eq!(pool.balance1, n(2));
    assert_eq!(pool.liquidity, n(3));
    assert_eq!(pool.total_supply, n(10000));
    assert_eq!(pool.k_last, Some(n(5)));
}

#[test]
fn later_value_of_an_attribute_counts() {
    let mut delta = ProtocolStateDelta::new();
    delta.set_attribute("reserve0".to_string(), vec![1]);
    delta.set_attribute("reserve0".to_string(), vec![2]);
    assert_eq!(delta.attribute("reserve0"), Some(&vec![2]));
    assert_eq!(delta.attribute("reserve1"), None);
}
