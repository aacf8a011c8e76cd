use vstd::arithmetic::div_mod::{
    lemma_div_is_ordered, lemma_div_is_ordered_by_denominator, lemma_div_of0,
};
use vstd::arithmetic::mul::lemma_mul_is_distributive_add;
use vstd::prelude::*;

use crate::errors::SimulationErrorView;
use crate::model::{
    fee_liquidity, lemma_reserve_product, minimum_liquidity, nothing_minted_error, PoolView,
    MAX_RESERVE,
};
use crate::safe_math::product_quotient;
use crate::solidity_math::{isqrt, lemma_isqrt};
use crate::u256::u256_bound;

verus! {

/// Whether the reserves are what the balances are, and fit in 112 bits.
pub open spec fn in_step(pool: PoolView) -> bool {
    &&& pool.reserve0 == pool.balance0 <= MAX_RESERVE
    &&& pool.reserve1 == pool.balance1 <= MAX_RESERVE
}

/// A quotient times its divisor does not exceed what was divided, and one more would.
proof fn lemma_quotient_bound(dividend: nat, divisor: nat)
    requires
        divisor > 0,
    ensures
        dividend / divisor * divisor <= dividend < (dividend / divisor + 1) * divisor,
{
    let quotient = dividend / divisor;
    assert(quotient * divisor <= dividend < (quotient + 1) * divisor) by (nonlinear_arith)
        requires
            quotient == dividend / divisor,
            divisor > 0,
    ;
}

/// A factor on both sides can go.
proof fn lemma_cancel(a: nat, b: nat, factor: nat)
    requires
        a * factor <= b * factor,
        factor > 0,
    ensures
        a <= b,
{
    assert(a <= b) by (nonlinear_arith)
        requires
            a * factor <= b * factor,
            factor > 0,
    ;
}

/// A mint that succeeds issues some tokens, brings the reserves in step with the balances, records
/// their product if a fee is taken, and pays nothing out. The supply grows by what is issued, and
/// on the first mint by the minimum too.
pub proof fn mint_settles(pool: PoolView, fee_on: bool)
    requires
        pool.mint(fee_on).1 is Ok,
    ensures
        ({
            let (after, result) = pool.mint(fee_on);
            let issued = result->Ok_0;
            &&& issued > 0
            &&& in_step(after)
            &&& fee_on ==> after.k_last == Some(after.reserve0 * after.reserve1)
            &&& after.balance0 == pool.balance0
            &&& after.balance1 == pool.balance1
            &&& after.liquidity == pool.liquidity
            &&& after.total_supply == issued + (if pool.total_supply == 0 {
                minimum_liquidity()
            } else {
                pool.total_supply
            })
        }),
{
}

/// A mint that fails leaves reserves, balances and the pair's own tokens as they were.
pub proof fn failed_mint_keeps_reserves(pool: PoolView, fee_on: bool)
    requires
        pool.mint(fee_on).1 is Err,
    ensures
        ({
            let after = pool.mint(fee_on).0;
            &&& after.reserve0 == pool.reserve0
            &&& after.reserve1 == pool.reserve1
            &&& after.balance0 == pool.balance0
            &&& after.balance1 == pool.balance1
            &&& after.liquidity == pool.liquidity
        }),
{
}

/// The first mint issues the root of the product of the amounts, less the minimum that is locked
/// up.
pub proof fn first_mint_issues_root(pool: PoolView, fee_on: bool)
    requires
        pool.total_supply == 0,
        pool.mint(fee_on).1 is Ok,
    ensures
        pool.mint(fee_on).1->Ok_0 + minimum_liquidity() == isqrt(
            ((pool.balance0 - pool.reserve0) * (pool.balance1 - pool.reserve1)) as nat,
        ),
        pool.mint(fee_on).0.total_supply == isqrt(
            ((pool.balance0 - pool.reserve0) * (pool.balance1 - pool.reserve1)) as nat,
        ),
{
    let (amount0, amount1) = (
        (pool.balance0 - pool.reserve0) as nat,
        (pool.balance1 - pool.reserve1) as nat,
    );
    assert(amount0 * amount1 == (pool.balance0 - pool.reserve0) * (pool.balance1
        - pool.reserve1));
}

/// A later mint issues no more than the share that was paid in of either token, so that a token in
/// circulation stands for no less of the pool than before.
pub proof fn later_mint_is_proportional(pool: PoolView, fee_on: bool)
    requires
        pool.total_supply > 0,
        pool.mint(fee_on).1 is Ok,
    ensures
        ({
            let (after, result) = pool.mint(fee_on);
            let issued = result->Ok_0;
            &&& issued * pool.reserve0 <= (pool.balance0 - pool.reserve0) * pool.total_supply
            &&& issued * pool.reserve1 <= (pool.balance1 - pool.reserve1) * pool.total_supply
            &&& after.total_supply * pool.reserve0 <= pool.total_supply * after.reserve0
            &&& after.total_supply * pool.reserve1 <= pool.total_supply * after.reserve1
        }),
{
    let issued = pool.mint(fee_on).1->Ok_0;
    lemma_later_mint(
        pool.balance0,
        pool.reserve0,
        pool.total_supply,
        issued,
        (pool.balance0 - pool.reserve0) as nat * pool.total_supply / pool.reserve0,
    );
    lemma_later_mint(
        pool.balance1,
        pool.reserve1,
        pool.total_supply,
        issued,
        (pool.balance1 - pool.reserve1) as nat * pool.total_supply / pool.reserve1,
    );
}

proof fn lemma_later_mint(balance: nat, reserve: nat, supply: nat, issued: nat, share: nat)
    requires
        reserve <= balance,
        reserve > 0,
        share == (balance - reserve) as nat * supply / reserve,
        issued <= share,
    ensures
        issued * reserve <= (balance - reserve) * supply,
        (supply + issued) * reserve <= supply * balance,
{
    let amount = (balance - reserve) as nat;
    lemma_quotient_bound(amount * supply, reserve);
    assert(issued * reserve <= share * reserve) by (nonlinear_arith)
        requires
            issued <= share,
    ;
    assert((supply + issued) * reserve <= supply * balance) by (nonlinear_arith)
        requires
            issued * reserve <= amount * supply,
            balance == reserve + amount,
    ;
}

/// A burn that succeeds destroys the pair's own tokens, brings the reserves in step with the
/// balances and records their product if a fee is taken. What leaves the balances is what is paid
/// out, and what leaves the supply is what is destroyed.
pub proof fn burn_settles(pool: PoolView, fee_on: bool)
    requires
        pool.burn(fee_on).1 is Ok,
    ensures
        ({
            let (after, result) = pool.burn(fee_on);
            let (amount0, amount1) = result->Ok_0;
            &&& amount0 > 0 && amount1 > 0
            &&& in_step(after)
            &&& fee_on ==> after.k_last == Some(after.reserve0 * after.reserve1)
            &&& after.liquidity == 0
            &&& after.total_supply + pool.liquidity == pool.total_supply
            &&& after.balance0 + amount0 == pool.balance0
            &&& after.balance1 + amount1 == pool.balance1
        }),
{
    let supply = pool.total_supply;
    lemma_burn_share(pool.liquidity, pool.balance0, supply);
    lemma_burn_share(pool.liquidity, pool.balance1, supply);
}

/// A burn that fails leaves the reserves as they were.
pub proof fn failed_burn_keeps_reserves(pool: PoolView, fee_on: bool)
    requires
        pool.burn(fee_on).1 is Err,
    ensures
        pool.burn(fee_on).0.reserve0 == pool.reserve0,
        pool.burn(fee_on).0.reserve1 == pool.reserve1,
{
}

proof fn lemma_burn_share(liquidity: nat, balance: nat, supply: nat)
    requires
        0 < supply,
        liquidity <= supply,
    ensures
        liquidity * balance / supply <= balance,
        liquidity * balance / supply * supply <= liquidity * balance,
{
    let amount = liquidity * balance / supply;
    lemma_quotient_bound(liquidity * balance, supply);
    assert(liquidity * balance <= balance * supply) by (nonlinear_arith)
        requires
            liquidity <= supply,
    ;
    lemma_cancel(amount, balance, supply);
}

/// A burn pays out no more than the share that is destroyed, so that a token that stays in
/// circulation stands for no less of the pool than before.
pub proof fn burn_is_proportional(pool: PoolView, fee_on: bool)
    requires
        pool.burn(fee_on).1 is Ok,
    ensures
        ({
            let (after, result) = pool.burn(fee_on);
            let (amount0, amount1) = result->Ok_0;
            &&& amount0 * pool.total_supply <= pool.liquidity * pool.balance0
            &&& amount1 * pool.total_supply <= pool.liquidity * pool.balance1
            &&& pool.balance0 * after.total_supply <= after.balance0 * pool.total_supply
            &&& pool.balance1 * after.total_supply <= after.balance1 * pool.total_supply
        }),
{
    let (after, result) = pool.burn(fee_on);
    let (amount0, amount1) = result->Ok_0;
    let (part, whole) = (pool.liquidity, pool.total_supply);
    lemma_burn_share(part, pool.balance0, whole);
    lemma_burn_share(part, pool.balance1, whole);
    lemma_remaining_share(pool.balance0, amount0, part, whole);
    lemma_remaining_share(pool.balance1, amount1, part, whole);
}

proof fn lemma_remaining_share(balance: nat, amount: nat, part: nat, whole: nat)
    requires
        amount <= balance,
        part <= whole,
        amount * whole <= part * balance,
    ensures
        balance * (whole - part) <= (balance - amount) * whole,
{
    assert(balance * (whole - part) == balance * whole - part * balance) by (nonlinear_arith);
    assert((balance - amount) * whole == balance * whole - amount * whole) by (nonlinear_arith);
}

/// The pool after a mint, with the tokens that were issued sent to the pair.
pub open spec fn with_issued_tokens(pool: PoolView, fee_on: bool) -> PoolView {
    let (after, result) = pool.mint(fee_on);
    PoolView { liquidity: result->Ok_0, ..after }
}

/// Who pays into a pool that has tokens in circulation, and has the tokens that were issued burned
/// at once, gets back no more than was paid in.
pub proof fn mint_then_burn_gains_nothing(pool: PoolView, fee_on: bool, burn_fee_on: bool)
    requires
        pool.total_supply > 0,
        pool.mint(fee_on).1 is Ok,
        with_issued_tokens(pool, fee_on).burn(burn_fee_on).1 is Ok,
    ensures
        ({
            let (amount0, amount1) = with_issued_tokens(pool, fee_on).burn(burn_fee_on).1->Ok_0;
            &&& amount0 <= pool.balance0 - pool.reserve0
            &&& amount1 <= pool.balance1 - pool.reserve1
        }),
{
    let issued = pool.mint(fee_on).1->Ok_0;
    let sent = with_issued_tokens(pool, fee_on);
    let (amount0, amount1) = sent.burn(burn_fee_on).1->Ok_0;
    mint_settles(pool, fee_on);
    later_mint_is_proportional(pool, fee_on);
    burn_is_proportional(sent, burn_fee_on);
    lemma_returned(pool.balance0, pool.reserve0, pool.total_supply, issued, amount0);
    lemma_returned(pool.balance1, pool.reserve1, pool.total_supply, issued, amount1);
}

proof fn lemma_returned(balance: nat, reserve: nat, supply: nat, issued: nat, amount: nat)
    requires
        reserve <= balance,
        supply > 0,
        issued * reserve <= (balance - reserve) * supply,
        amount * (supply + issued) <= issued * balance,
    ensures
        amount <= balance - reserve,
{
    let paid = (balance - reserve) as nat;
    assert(issued * balance <= paid * (supply + issued)) by (nonlinear_arith)
        requires
            issued * reserve <= paid * supply,
            balance == reserve + paid,
    ;
    lemma_cancel(amount, paid, supply + issued);
}

/// Who pays into an empty pool, and has the tokens that were issued burned at once, gets back no
/// more than was paid in.
pub proof fn first_mint_then_burn_gains_nothing(pool: PoolView, fee_on: bool, burn_fee_on: bool)
    requires
        pool.total_supply == 0,
        pool.reserve0 == 0,
        pool.reserve1 == 0,
        pool.mint(fee_on).1 is Ok,
        with_issued_tokens(pool, fee_on).burn(burn_fee_on).1 is Ok,
    ensures
        ({
            let (amount0, amount1) = with_issued_tokens(pool, fee_on).burn(burn_fee_on).1->Ok_0;
            &&& amount0 <= pool.balance0
            &&& amount1 <= pool.balance1
        }),
{
    mint_settles(pool, fee_on);
    burn_settles(with_issued_tokens(pool, fee_on), burn_fee_on);
}

/// After a mint or a burn that succeeded, whether or not a fee was taken, nothing is due to the
/// protocol, so that the next mint or burn comes to an end.
pub proof fn settled_pool_owes_nothing(pool: PoolView, fee_on: bool, next_fee_on: bool)
    ensures
        ({
            let (after, result) = pool.mint(fee_on);
            result is Ok ==> after.fee_due(after.reserve0, after.reserve1, next_fee_on) == Ok::<
                nat,
                SimulationErrorView,
            >(0nat) && after.mint_ends(next_fee_on)
        }),
        ({
            let (after, result) = pool.burn(fee_on);
            result is Ok ==> after.fee_due(after.reserve0, after.reserve1, next_fee_on) == Ok::<
                nat,
                SimulationErrorView,
            >(0nat) && after.mint_ends(next_fee_on)
        }),
{
    if pool.mint(fee_on).1 is Ok {
        mint_settles(pool, fee_on);
        let after = pool.mint(fee_on).0;
        lemma_reserve_product(after.reserve0, after.reserve1);
    }
    if pool.burn(fee_on).1 is Ok {
        burn_settles(pool, fee_on);
        let after = pool.burn(fee_on).0;
        lemma_reserve_product(after.reserve0, after.reserve1);
    }
}

/// A mint right after one that succeeded, with the same choice of a fee, issues nothing: it fails
/// and changes nothing.
pub proof fn second_mint_changes_nothing(pool: PoolView, fee_on: bool)
    requires
        pool.mint(fee_on).1 is Ok,
    ensures
        pool.mint(fee_on).0.mint(fee_on) == (
            pool.mint(fee_on).0,
            Err::<nat, SimulationErrorView>(nothing_minted_error()),
        ),
{
    let after = pool.mint(fee_on).0;
    let (amount0, amount1) = (
        (pool.balance0 - pool.reserve0) as nat,
        (pool.balance1 - pool.reserve1) as nat,
    );
    settled_pool_owes_nothing(pool, fee_on, fee_on);
    // Neither reserve is zero: a later mint divides by both, and a first one has a product.
    if pool.total_supply == 0 {
        lemma_isqrt(amount0 * amount1);
        let root = isqrt(amount0 * amount1);
        assert(amount0 > 0 && amount1 > 0) by (nonlinear_arith)
            requires
                root * root <= amount0 * amount1,
                root >= 1000,
        ;
    }
    assert(after.reserve0 > 0 && after.reserve1 > 0);
    lemma_share_of_nothing(after.total_supply, after.reserve0);
    lemma_share_of_nothing(after.total_supply, after.reserve1);
    assert(after.k_last_wiped(fee_on) == after);
}

/// A burn right after one that succeeded, with the same choice of a fee, has nothing to destroy: it
/// fails and changes nothing.
pub proof fn second_burn_changes_nothing(pool: PoolView, fee_on: bool)
    requires
        pool.burn(fee_on).1 is Ok,
    ensures
        pool.burn(fee_on).0.burn(fee_on).1 is Err,
        pool.burn(fee_on).0.burn(fee_on).0 == pool.burn(fee_on).0,
{
    let after = pool.burn(fee_on).0;
    settled_pool_owes_nothing(pool, fee_on, fee_on);
    burn_settles(pool, fee_on);
    if after.total_supply > 0 {
        lemma_share_of_nothing(after.balance0, after.total_supply);
        lemma_share_of_nothing(after.balance1, after.total_supply);
    }
}

proof fn lemma_share_of_nothing(shared: nat, whole: nat)
    requires
        whole > 0,
    ensures
        product_quotient(0, shared, whole) == Ok::<nat, SimulationErrorView>(0nat),
{
    assert(0 * shared == 0) by (nonlinear_arith);
    lemma_div_of0(whole as int);
}

/// Without a receiver the fee step always succeeds and says so, and nothing is due from then on,
/// whatever the reserves.
pub proof fn no_receiver_no_fee(
    pool: PoolView,
    reserve0: nat,
    reserve1: nat,
    later_reserve0: nat,
    later_reserve1: nat,
    fee_on: bool,
)
    ensures
        pool.mint_fee(reserve0, reserve1, false).1 == Ok::<bool, SimulationErrorView>(false),
        pool.mint_fee(reserve0, reserve1, false).0.fee_due(later_reserve0, later_reserve1, fee_on)
            == Ok::<nat, SimulationErrorView>(0nat),
{
}

/// The protocol's tokens come to no more than one sixth of the growth of the root of the product
/// of the reserves.
pub proof fn fee_is_one_sixth_of_growth_at_most(
    total_supply: nat,
    reserve0: nat,
    reserve1: nat,
    k_last: nat,
)
    requires
        fee_liquidity(total_supply, reserve0, reserve1, Some(k_last)) is Ok,
        isqrt(k_last) <= isqrt(reserve0 * reserve1),
    ensures
        ({
            let fee = fee_liquidity(total_supply, reserve0, reserve1, Some(k_last))->Ok_0;
            let root_k = isqrt(reserve0 * reserve1);
            fee * (6 * root_k) <= (total_supply + fee) * (root_k - isqrt(k_last))
        }),
{
    let fee = fee_liquidity(total_supply, reserve0, reserve1, Some(k_last))->Ok_0;
    let (root_k, root_k_last) = (isqrt(reserve0 * reserve1), isqrt(k_last));
    let growth = (root_k - root_k_last) as nat;
    if k_last > 0 && growth > 0 {
        lemma_quotient_bound(total_supply * growth, root_k * 5 + root_k_last);
        assert(fee * (6 * root_k) == fee * (root_k * 5 + root_k_last) + fee * growth)
            by (nonlinear_arith)
            requires
                growth == root_k - root_k_last,
                root_k_last <= root_k,
        ;
        assert((total_supply + fee) * growth == total_supply * growth + fee * growth)
            by (nonlinear_arith);
    } else {
        assert(fee == 0);
        assert(fee * (6 * root_k) == 0) by (nonlinear_arith)
            requires
                fee == 0,
        ;
        assert((total_supply + fee) * growth >= 0) by (nonlinear_arith);
    }
}

/// Tokens in circulation are together worth no more than the reserves.
pub proof fn value_is_within_reserves(
    pool: PoolView,
    amount: nat,
    fee_on: bool,
    k_last: Option<nat>,
)
    requires
        amount <= pool.total_supply,
        pool.liquidity_value(amount, fee_on, k_last) is Ok,
    ensures
        pool.liquidity_value(amount, fee_on, k_last)->Ok_0.0 <= pool.reserve0,
        pool.liquidity_value(amount, fee_on, k_last)->Ok_0.1 <= pool.reserve1,
{
    let due = if fee_on {
        fee_liquidity(pool.total_supply, pool.reserve0, pool.reserve1, k_last)->Ok_0
    } else {
        0
    };
    let supply = pool.total_supply + due;
    assert(pool.reserve0 * amount == amount * pool.reserve0) by (nonlinear_arith);
    assert(pool.reserve1 * amount == amount * pool.reserve1) by (nonlinear_arith);
    lemma_burn_share(amount, pool.reserve0, supply);
    lemma_burn_share(amount, pool.reserve1, supply);
}

/// More tokens are worth no less, and where they have a value, so have fewer.
pub proof fn value_is_monotonic(
    pool: PoolView,
    less: nat,
    more: nat,
    fee_on: bool,
    k_last: Option<nat>,
)
    requires
        less <= more,
        pool.liquidity_value(more, fee_on, k_last) is Ok,
    ensures
        pool.liquidity_value(less, fee_on, k_last) is Ok,
        pool.liquidity_value(less, fee_on, k_last)->Ok_0.0 <= pool.liquidity_value(
            more,
            fee_on,
            k_last,
        )->Ok_0.0,
        pool.liquidity_value(less, fee_on, k_last)->Ok_0.1 <= pool.liquidity_value(
            more,
            fee_on,
            k_last,
        )->Ok_0.1,
{
    let due = if fee_on {
        fee_liquidity(pool.total_supply, pool.reserve0, pool.reserve1, k_last)->Ok_0
    } else {
        0
    };
    let supply = pool.total_supply + due;
    assert(pool.reserve0 * less <= pool.reserve0 * more) by (nonlinear_arith)
        requires
            less <= more,
    ;
    assert(pool.reserve1 * less <= pool.reserve1 * more) by (nonlinear_arith)
        requires
            less <= more,
    ;
    lemma_div_is_ordered(
        (pool.reserve0 * less) as int,
        (pool.reserve0 * more) as int,
        supply as int,
    );
    lemma_div_is_ordered(
        (pool.reserve1 * less) as int,
        (pool.reserve1 * more) as int,
        supply as int,
    );
}

/// Two parts of a position are worth no more than the whole, and at most one unit of each token
/// less.
pub proof fn split_position_loses_one_unit_at_most(
    pool: PoolView,
    a: nat,
    b: nat,
    fee_on: bool,
    k_last: Option<nat>,
)
    requires
        pool.liquidity_value(a + b, fee_on, k_last) is Ok,
    ensures
        ({
            let whole = pool.liquidity_value(a + b, fee_on, k_last)->Ok_0;
            match (
                pool.liquidity_value(a, fee_on, k_last),
                pool.liquidity_value(b, fee_on, k_last),
            ) {
                (Ok(first), Ok(second)) => {
                    &&& first.0 + second.0 <= whole.0 <= first.0 + second.0 + 1
                    &&& first.1 + second.1 <= whole.1 <= first.1 + second.1 + 1
                },
                _ => false,
            }
        }),
{
    let due = if fee_on {
        fee_liquidity(pool.total_supply, pool.reserve0, pool.reserve1, k_last)->Ok_0
    } else {
        0
    };
    let supply = pool.total_supply + due;
    value_is_monotonic(pool, a, a + b, fee_on, k_last);
    value_is_monotonic(pool, b, a + b, fee_on, k_last);
    lemma_mul_is_distributive_add(pool.reserve0 as int, a as int, b as int);
    lemma_mul_is_distributive_add(pool.reserve1 as int, a as int, b as int);
    lemma_split_quotient(pool.reserve0 * a, pool.reserve0 * b, supply);
    lemma_split_quotient(pool.reserve1 * a, pool.reserve1 * b, supply);
}

proof fn lemma_split_quotient(x: nat, y: nat, divisor: nat)
    requires
        divisor > 0,
    ensures
        x / divisor + y / divisor <= (x + y) / divisor <= x / divisor + y / divisor + 1,
{
    let (p, q, t) = (x / divisor, y / divisor, (x + y) / divisor);
    lemma_quotient_bound(x, divisor);
    lemma_quotient_bound(y, divisor);
    lemma_quotient_bound(x + y, divisor);
    assert(p + q <= t <= p + q + 1) by (nonlinear_arith)
        requires
            p * divisor <= x < (p + 1) * divisor,
            q * divisor <= y < (q + 1) * divisor,
            t * divisor <= x + y < (t + 1) * divisor,
            divisor > 0,
    {
        assert((p + q) * divisor < (t + 1) * divisor);
        assert(t * divisor < (p + q + 2) * divisor);
    }
}

/// The protocol's fee never makes a token worth more.
pub proof fn fee_dilutes_value(pool: PoolView, amount: nat, k_last: Option<nat>)
    requires
        pool.liquidity_value(amount, true, k_last) is Ok,
    ensures
        ({
            let with_fee = pool.liquidity_value(amount, true, k_last)->Ok_0;
            let without = pool.liquidity_value(amount, false, k_last);
            without matches Ok(worth) && with_fee.0 <= worth.0 && with_fee.1 <= worth.1
        }),
{
    let due = fee_liquidity(pool.total_supply, pool.reserve0, pool.reserve1, k_last)->Ok_0;
    lemma_div_is_ordered_by_denominator(
        (pool.reserve0 * amount) as int,
        pool.total_supply as int,
        (pool.total_supply + due) as int,
    );
    lemma_div_is_ordered_by_denominator(
        (pool.reserve1 * amount) as int,
        pool.total_supply as int,
        (pool.total_supply + due) as int,
    );
}

/// A burn pays out what the tokens are worth, where the reserves are what the balances are and
/// nothing is due to the protocol.
pub proof fn burn_pays_value(pool: PoolView, fee_on: bool)
    requires
        pool.reserve0 == pool.balance0,
        pool.reserve1 == pool.balance1,
        pool.total_supply < u256_bound(),
        !pool.fee_is_due(pool.reserve0, pool.reserve1, fee_on),
        pool.burn(fee_on).1 is Ok,
    ensures
        pool.liquidity_value(pool.liquidity, fee_on, pool.k_last) == pool.burn(fee_on).1,
{
    assert(pool.reserve0 * pool.liquidity == pool.liquidity * pool.balance0) by (nonlinear_arith)
        requires
            pool.reserve0 == pool.balance0,
    ;
    assert(pool.reserve1 * pool.liquidity == pool.liquidity * pool.balance1) by (nonlinear_arith)
        requires
            pool.reserve1 == pool.balance1,
    ;
}

} // verus!
