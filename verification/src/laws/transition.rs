use vstd::prelude::*;

use crate::errors::TransitionErrorView;
use crate::laws::numbers::{big_endian, fits_256, written_u256_reads_back};
use crate::model::{decodable, PoolView};
use crate::state::{optional_value, GetAmountOutResult, UniswapV2State};
use crate::u256::{be_value, limbs_value, U256};

verus! {

/// A delta that fails leaves the pool as it was, and one that is applied leaves the record of the
/// last product as it was.
pub proof fn failed_transition_changes_nothing(
    pool: PoolView,
    attributes: Map<Seq<char>, Seq<u8>>,
)
    ensures
        pool.transition(attributes).1 is Err ==> pool.transition(attributes).0 == pool,
        pool.transition(attributes).0.k_last == pool.k_last,
{
}

/// To apply a delta twice is to apply it once, also where it fails.
pub proof fn transition_is_idempotent(pool: PoolView, attributes: Map<Seq<char>, Seq<u8>>)
    ensures
        pool.transition(attributes).0.transition(attributes) == pool.transition(attributes),
{
}

/// Whether a delta is applied depends on it alone, not on the pool: both reserves must be there.
pub proof fn transition_needs_reserves(pool: PoolView, attributes: Map<Seq<char>, Seq<u8>>)
    ensures
        pool.transition(attributes).1 is Ok <==> attributes.contains_key("reserve0"@)
            && attributes.contains_key("reserve1"@),
{
}

/// After a delta that is applied, each reserve is the number that its attribute spells. So is each
/// balance, and the pair's own tokens, where the delta has the attribute, and else what it was. The
/// supply is the one that is assumed of every pool.
pub proof fn applied_delta_is_spelled(pool: PoolView, attributes: Map<Seq<char>, Seq<u8>>)
    requires
        pool.transition(attributes).1 is Ok,
    ensures
        ({
            let after = pool.transition(attributes).0;
            &&& after.reserve0 == be_value(attributes["reserve0"@])
            &&& after.reserve1 == be_value(attributes["reserve1"@])
            &&& after.balance0 == if attributes.contains_key("balance0"@) {
                be_value(attributes["balance0"@])
            } else {
                pool.balance0
            }
            &&& after.balance1 == if attributes.contains_key("balance1"@) {
                be_value(attributes["balance1"@])
            } else {
                pool.balance1
            }
            &&& after.liquidity == if attributes.contains_key("liquidity"@) {
                be_value(attributes["liquidity"@])
            } else {
                pool.liquidity
            }
            &&& after.total_supply == 10000
            &&& after.k_last == pool.k_last
        }),
{
}

/// Every state of numbers of 256 bits can be reported: a delta that holds them written out, most
/// significant byte first, is one that can be read, is applied, and leaves these very numbers.
pub proof fn written_state_is_restored(
    pool: PoolView,
    attributes: Map<Seq<char>, Seq<u8>>,
    reserve0: nat,
    reserve1: nat,
    balance0: nat,
    balance1: nat,
    liquidity: nat,
)
    requires
        fits_256(reserve0) && fits_256(reserve1),
        fits_256(balance0) && fits_256(balance1),
        fits_256(liquidity),
        attributes.contains_key("reserve0"@),
        attributes.contains_key("reserve1"@),
        attributes.contains_key("balance0"@),
        attributes.contains_key("balance1"@),
        attributes.contains_key("liquidity"@),
        attributes["reserve0"@] == big_endian(reserve0, 32),
        attributes["reserve1"@] == big_endian(reserve1, 32),
        attributes["balance0"@] == big_endian(balance0, 32),
        attributes["balance1"@] == big_endian(balance1, 32),
        attributes["liquidity"@] == big_endian(liquidity, 32),
    ensures
        decodable(attributes),
        ({
            let (after, result) = pool.transition(attributes);
            &&& result is Ok
            &&& after.reserve0 == reserve0
            &&& after.reserve1 == reserve1
            &&& after.balance0 == balance0
            &&& after.balance1 == balance1
            &&& after.liquidity == liquidity
        }),
{
    written_u256_reads_back(reserve0);
    written_u256_reads_back(reserve1);
    written_u256_reads_back(balance0);
    written_u256_reads_back(balance1);
    written_u256_reads_back(liquidity);
}

/// A delta that holds only the reserves, written out, sets these and leaves balances and the pair's
/// own tokens as they were.
pub proof fn written_reserves_are_restored(
    pool: PoolView,
    attributes: Map<Seq<char>, Seq<u8>>,
    reserve0: nat,
    reserve1: nat,
)
    requires
        fits_256(reserve0) && fits_256(reserve1),
        attributes == Map::<Seq<char>, Seq<u8>>::empty().insert(
            "reserve0"@,
            big_endian(reserve0, 32),
        ).insert("reserve1"@, big_endian(reserve1, 32)),
    ensures
        decodable(attributes),
        ({
            let (after, result) = pool.transition(attributes);
            &&& result is Ok
            &&& after.reserve0 == reserve0
            &&& after.reserve1 == reserve1
            &&& after.balance0 == pool.balance0
            &&& after.balance1 == pool.balance1
            &&& after.liquidity == pool.liquidity
        }),
{
    written_u256_reads_back(reserve0);
    written_u256_reads_back(reserve1);
    reveal_strlit("reserve0");
    reveal_strlit("reserve1");
    reveal_strlit("balance0");
    reveal_strlit("balance1");
    reveal_strlit("liquidity");
    assert("reserve0"@[7] != "reserve1"@[7]);
    assert("reserve0"@[0] != "balance0"@[0] && "reserve1"@[0] != "balance0"@[0]);
    assert("reserve0"@[0] != "balance1"@[0] && "reserve1"@[0] != "balance1"@[0]);
    assert("reserve0"@[0] != "liquidity"@[0] && "reserve1"@[0] != "liquidity"@[0]);
}

/// A delta without `reserve0` is refused for want of it, whether or not it has `reserve1`; one with
/// `reserve0` but without `reserve1` is refused for want of that.
pub proof fn missing_reserve_is_named(pool: PoolView, attributes: Map<Seq<char>, Seq<u8>>)
    ensures
        !attributes.contains_key("reserve0"@) ==> pool.transition(attributes).1 == Err::<
            (),
            TransitionErrorView,
        >(TransitionErrorView::MissingAttribute("reserve0"@)),
        attributes.contains_key("reserve0"@) && !attributes.contains_key("reserve1"@)
            ==> pool.transition(attributes).1 == Err::<(), TransitionErrorView>(
            TransitionErrorView::MissingAttribute("reserve1"@),
        ),
{
}

/// Of two deltas that are applied, the later one alone decides the reserves, and the earlier one
/// decides only what the later one does not hold.
pub proof fn later_delta_wins(
    pool: PoolView,
    other: PoolView,
    earlier: Map<Seq<char>, Seq<u8>>,
    later: Map<Seq<char>, Seq<u8>>,
)
    requires
        pool.transition(earlier).1 is Ok,
        pool.transition(later).1 is Ok,
    ensures
        ({
            let between = pool.transition(earlier).0;
            let after = between.transition(later).0;
            let elsewhere = other.transition(later).0;
            &&& between.transition(later).1 is Ok
            &&& after.reserve0 == elsewhere.reserve0
            &&& after.reserve1 == elsewhere.reserve1
            &&& later.contains_key("balance0"@) ==> after.balance0 == elsewhere.balance0
            &&& later.contains_key("balance1"@) ==> after.balance1 == elsewhere.balance1
            &&& later.contains_key("liquidity"@) ==> after.liquidity == elsewhere.liquidity
            &&& !later.contains_key("balance0"@) ==> after.balance0 == between.balance0
            &&& !later.contains_key("balance1"@) ==> after.balance1 == between.balance1
            &&& !later.contains_key("liquidity"@) ==> after.liquidity == between.liquidity
        }),
{
}

/// A delta can be read unless one of the attributes that are looked at has more than 32 bytes. What
/// comes after a reserve that is missing is not looked at.
pub proof fn short_attributes_can_be_read(attributes: Map<Seq<char>, Seq<u8>>)
    ensures
        ({
            let too_long = |name: Seq<char>|
                attributes.contains_key(name) && attributes[name].len() > 32;
            let has0 = attributes.contains_key("reserve0"@);
            let has1 = attributes.contains_key("reserve1"@);
            decodable(attributes) <==> {
                &&& !too_long("reserve0"@)
                &&& has0 ==> !too_long("reserve1"@)
                &&& has0 && has1 ==> !too_long("balance0"@) && !too_long("balance1"@) && !too_long(
                    "liquidity"@,
                )
            }
        }),
{
}

/// A state is seen as the values of its seven fields, and the outcome of a swap as those of its
/// three.
pub proof fn state_is_seen_whole(state: UniswapV2State, result: GetAmountOutResult)
    ensures
        state@.reserve0 == state.reserve0@,
        state@.reserve1 == state.reserve1@,
        state@.balance0 == state.balance0@,
        state@.balance1 == state.balance1@,
        state@.liquidity == state.liquidity@,
        state@.total_supply == state.total_supply@,
        state.k_last is None <==> state@.k_last is None,
        state.k_last matches Some(k_last) ==> state@.k_last == Some(k_last@),
        state@.k_last == optional_value(state.k_last),
        result@.amount == result.amount@,
        result@.gas == result.gas@,
        result@.new_state == result.new_state@,
{
}

/// Two states are equal exactly where each field of the one is equal to that of the other: states
/// that are seen alike are identical.
pub proof fn equal_states_are_identical(a: UniswapV2State, b: UniswapV2State)
    ensures
        a@ == b@ <==> a == b,
        vstd::std_specs::cmp::PartialEqSpec::eq_spec(&a, &b) <==> a == b,
{
    if a@ == b@ {
        equal_integers_are_identical(a.reserve0, b.reserve0);
        equal_integers_are_identical(a.reserve1, b.reserve1);
        equal_integers_are_identical(a.balance0, b.balance0);
        equal_integers_are_identical(a.balance1, b.balance1);
        equal_integers_are_identical(a.liquidity, b.liquidity);
        equal_integers_are_identical(a.total_supply, b.total_supply);
        match (a.k_last, b.k_last) {
            (Some(x), Some(y)) => equal_integers_are_identical(x, y),
            _ => {},
        }
    }
}

/// To set the reserves twice to the same balances is to set them once.
pub proof fn update_is_idempotent(pool: PoolView, balance0: nat, balance1: nat)
    ensures
        pool.update(balance0, balance1).0.update(balance0, balance1) == pool.update(
            balance0,
            balance1,
        ),
{
}

/// A 256-bit integer has one form only: integers of the same value have the same limbs.
pub proof fn equal_integers_are_identical(a: U256, b: U256)
    requires
        a@ == b@,
    ensures
        a == b,
{
    reveal(limbs_value);
    assert(a.limbs[3] == b.limbs[3]);
    assert(a.limbs[2] == b.limbs[2]);
    assert(a.limbs[1] == b.limbs[1]);
    assert(a.limbs[0] == b.limbs[0]);
    assert(a.limbs =~= b.limbs);
}

} // verus!
