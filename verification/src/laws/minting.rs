use vstd::prelude::*;

use crate::errors::SimulationErrorView;
use crate::laws::numbers::{
    fatal, fits_112, fits_256, is_root, is_share, lemma_is_share, lemma_root, lemma_share,
    out_of_range,
};
use crate::model::PoolView;
use crate::solidity_math::lemma_isqrt;

verus! {

/// The recorded product after the fee step: zero where there was one and no fee is taken, else
/// what it was.
pub open spec fn record_kept(k_last: Option<nat>, fee_on: bool) -> Option<nat> {
    if fee_on || k_last is None {
        k_last
    } else {
        Some(0nat)
    }
}

/// Whether a pool is as another one was, but for its supply and its recorded product.
pub open spec fn only_supply_changed(
    after: PoolView,
    pool: PoolView,
    total_supply: nat,
    k_last: Option<nat>,
) -> bool {
    &&& after.reserve0 == pool.reserve0
    &&& after.reserve1 == pool.reserve1
    &&& after.balance0 == pool.balance0
    &&& after.balance1 == pool.balance1
    &&& after.liquidity == pool.liquidity
    &&& after.total_supply == total_supply
    &&& after.k_last == k_last
}

/// Whether a pool has its reserves at the given balances, and the product of these on record where
/// a fee is taken.
pub open spec fn settled_at(
    after: PoolView,
    balance0: nat,
    balance1: nat,
    fee_on: bool,
    k_last: Option<nat>,
) -> bool {
    &&& after.balance0 == balance0
    &&& after.balance1 == balance1
    &&& after.reserve0 == balance0
    &&& after.reserve1 == balance1
    &&& after.k_last == if fee_on {
        Some(balance0 * balance1)
    } else {
        record_kept(k_last, fee_on)
    }
}

/// Setting the reserves takes both balances as they are if 112 bits hold them, and else changes
/// nothing and fails.
pub proof fn update_takes_balances(pool: PoolView, balance0: nat, balance1: nat)
    ensures
        ({
            let (after, result) = pool.update(balance0, balance1);
            &&& result is Ok <==> fits_112(balance0) && fits_112(balance1)
            &&& result is Ok ==> after.reserve0 == balance0 && after.reserve1 == balance1
            &&& result is Err ==> after == pool && result->Err_0 == fatal("overflow"@)
            &&& after.balance0 == pool.balance0
            &&& after.balance1 == pool.balance1
            &&& after.liquidity == pool.liquidity
            &&& after.total_supply == pool.total_supply
            &&& after.k_last == pool.k_last
        }),
{
}

/// A mint from balances below the reserves is refused, and so is one whose fee is refused. The pool
/// stays as it was.
pub proof fn uncovered_mint_is_refused(pool: PoolView, fee_on: bool)
    ensures
        pool.balance0 < pool.reserve0 || pool.balance1 < pool.reserve1 ==> pool.mint(fee_on) == (
            pool,
            Err::<nat, SimulationErrorView>(out_of_range()),
        ),
        pool.balance0 >= pool.reserve0 && pool.balance1 >= pool.reserve1 ==> (pool.fee_due(
            pool.reserve0,
            pool.reserve1,
            fee_on,
        ) matches Err(error) ==> pool.mint(fee_on) == (
            pool,
            Err::<nat, SimulationErrorView>(error),
        )),
{
}

/// A later mint issues the full lesser share: what it issues keeps within the share that was paid
/// in of each token, and one more would exceed the share of one of them.
pub proof fn later_mint_issues_full_share(pool: PoolView, fee_on: bool)
    requires
        pool.total_supply > 0,
        pool.mint(fee_on).1 is Ok,
    ensures
        ({
            let issued = pool.mint(fee_on).1->Ok_0;
            let due0 = (pool.balance0 - pool.reserve0) * pool.total_supply;
            let due1 = (pool.balance1 - pool.reserve1) * pool.total_supply;
            &&& issued * pool.reserve0 <= due0
            &&& issued * pool.reserve1 <= due1
            &&& (issued + 1) * pool.reserve0 > due0 || (issued + 1) * pool.reserve1 > due1
        }),
{
    let amount0 = (pool.balance0 - pool.reserve0) as nat;
    let amount1 = (pool.balance1 - pool.reserve1) as nat;
    let issued = pool.mint(fee_on).1->Ok_0;
    let share0 = amount0 * pool.total_supply / pool.reserve0;
    let share1 = amount1 * pool.total_supply / pool.reserve1;
    lemma_is_share(amount0 * pool.total_supply, pool.reserve0);
    lemma_is_share(amount1 * pool.total_supply, pool.reserve1);
    assert(issued * pool.reserve0 <= share0 * pool.reserve0) by (nonlinear_arith)
        requires
            issued <= share0,
    ;
    assert(issued * pool.reserve1 <= share1 * pool.reserve1) by (nonlinear_arith)
        requires
            issued <= share1,
    ;
}

/// A later mint, given the share that was paid in of each token: it issues the lesser one and
/// leaves the pool settled at its balances, with that many more tokens in circulation and nothing
/// else changed. It is refused exactly where one of the products, or the pair's own tokens or the
/// supply with what is issued, does not fit in 256 bits, where nothing would be issued, and, with
/// the supply already raised, where 112 bits do not hold a balance.
pub proof fn later_mint_is_exact(pool: PoolView, fee_on: bool, share0: nat, share1: nat)
    requires
        pool.total_supply > 0,
        pool.reserve0 <= pool.balance0,
        pool.reserve1 <= pool.balance1,
        pool.fee_due(pool.reserve0, pool.reserve1, fee_on) is Ok,
        is_share(
            share0,
            (pool.balance0 - pool.reserve0) as nat * pool.total_supply,
            pool.reserve0,
        ),
        is_share(
            share1,
            (pool.balance1 - pool.reserve1) as nat * pool.total_supply,
            pool.reserve1,
        ),
    ensures
        ({
            let (after, result) = pool.mint(fee_on);
            let paid0 = (pool.balance0 - pool.reserve0) as nat;
            let paid1 = (pool.balance1 - pool.reserve1) as nat;
            let supply = pool.total_supply;
            let kept = record_kept(pool.k_last, fee_on);
            let issued = if share1 < share0 {
                share1
            } else {
                share0
            };
            if !fits_256(paid0 * supply) || !fits_256(paid1 * supply) {
                &&& result == Err::<nat, SimulationErrorView>(out_of_range())
                &&& only_supply_changed(after, pool, supply, kept)
            } else if issued == 0 {
                &&& result == Err::<nat, SimulationErrorView>(
                    fatal("Insufficient liquidity minted"@),
                )
                &&& only_supply_changed(after, pool, supply, kept)
            } else if !fits_256(pool.liquidity + issued) || !fits_256(supply + issued) {
                &&& result == Err::<nat, SimulationErrorView>(out_of_range())
                &&& only_supply_changed(after, pool, supply, kept)
            } else if !fits_112(pool.balance0) || !fits_112(pool.balance1) {
                &&& result == Err::<nat, SimulationErrorView>(fatal("overflow"@))
                &&& only_supply_changed(after, pool, supply + issued, kept)
            } else {
                &&& result == Ok::<nat, SimulationErrorView>(issued)
                &&& settled_at(after, pool.balance0, pool.balance1, fee_on, pool.k_last)
                &&& after.liquidity == pool.liquidity
                &&& after.total_supply == supply + issued
            }
        }),
{
    lemma_share(share0, (pool.balance0 - pool.reserve0) as nat * pool.total_supply, pool.reserve0);
    lemma_share(share1, (pool.balance1 - pool.reserve1) as nat * pool.total_supply, pool.reserve1);
}

/// A later mint into a pool that lacks one of its tokens is refused. A product that does not fit is
/// found before a reserve of zero, and token 0 is looked at first.
pub proof fn later_mint_needs_reserves(pool: PoolView, fee_on: bool)
    requires
        pool.total_supply > 0,
        pool.reserve0 <= pool.balance0,
        pool.reserve1 <= pool.balance1,
        pool.fee_due(pool.reserve0, pool.reserve1, fee_on) is Ok,
        pool.reserve0 == 0 || pool.reserve1 == 0,
    ensures
        ({
            let (after, result) = pool.mint(fee_on);
            let paid0 = (pool.balance0 - pool.reserve0) as nat;
            let paid1 = (pool.balance1 - pool.reserve1) as nat;
            let supply = pool.total_supply;
            let too_large = !fits_256(paid0 * supply) || (pool.reserve0 > 0 && !fits_256(
                paid1 * supply,
            ));
            &&& only_supply_changed(after, pool, supply, record_kept(pool.k_last, fee_on))
            &&& result == Err::<nat, SimulationErrorView>(
                if too_large {
                    out_of_range()
                } else {
                    fatal("Division by zero"@)
                },
            )
        }),
{
}

/// With what the first mint issues, a thousand tokens more make up the root of the product of the
/// amounts: that many squared keeps within the product, and one more squared exceeds it.
pub proof fn first_mint_issues_full_root(pool: PoolView, fee_on: bool)
    requires
        pool.total_supply == 0,
        pool.mint(fee_on).1 is Ok,
    ensures
        ({
            let (after, result) = pool.mint(fee_on);
            let issued = result->Ok_0;
            let product = (pool.balance0 - pool.reserve0) * (pool.balance1 - pool.reserve1);
            &&& (issued + 1000) * (issued + 1000) <= product
            &&& (issued + 1001) * (issued + 1001) > product
            &&& after.total_supply == issued + 1000
        }),
{
    let paid0 = (pool.balance0 - pool.reserve0) as nat;
    let paid1 = (pool.balance1 - pool.reserve1) as nat;
    assert(paid0 * paid1 == (pool.balance0 - pool.reserve0) * (pool.balance1 - pool.reserve1));
    lemma_isqrt(paid0 * paid1);
}

/// The first mint, given the root of the product of the amounts: it issues the root less a thousand
/// and leaves the pool settled at its balances, with as many tokens in circulation as the root and
/// nothing else changed. It is refused exactly where the product, or the pair's own tokens with
/// what is issued, or the supply does not fit in 256 bits, where the root is below a thousand, and,
/// with the thousand already in circulation, where nothing would be issued; and, with all of it in
/// circulation, where 112 bits do not hold a balance.
pub proof fn first_mint_is_exact(pool: PoolView, fee_on: bool, root: nat)
    requires
        pool.total_supply == 0,
        pool.reserve0 <= pool.balance0,
        pool.reserve1 <= pool.balance1,
        pool.fee_due(pool.reserve0, pool.reserve1, fee_on) is Ok,
        is_root(
            root,
            (pool.balance0 - pool.reserve0) as nat * (pool.balance1 - pool.reserve1) as nat,
        ),
    ensures
        ({
            let (after, result) = pool.mint(fee_on);
            let product = (pool.balance0 - pool.reserve0) as nat * (pool.balance1
                - pool.reserve1) as nat;
            let kept = record_kept(pool.k_last, fee_on);
            if !fits_256(product) || root < 1000 {
                &&& result == Err::<nat, SimulationErrorView>(out_of_range())
                &&& only_supply_changed(after, pool, 0, kept)
            } else if root == 1000 {
                &&& result == Err::<nat, SimulationErrorView>(
                    fatal("Insufficient liquidity minted"@),
                )
                &&& only_supply_changed(after, pool, 1000, kept)
            } else if !fits_256((pool.liquidity + root - 1000) as nat) || !fits_256(root) {
                &&& result == Err::<nat, SimulationErrorView>(out_of_range())
                &&& only_supply_changed(after, pool, 1000, kept)
            } else if !fits_112(pool.balance0) || !fits_112(pool.balance1) {
                &&& result == Err::<nat, SimulationErrorView>(fatal("overflow"@))
                &&& only_supply_changed(after, pool, root, kept)
            } else {
                &&& result == Ok::<nat, SimulationErrorView>((root - 1000) as nat)
                &&& settled_at(after, pool.balance0, pool.balance1, fee_on, pool.k_last)
                &&& after.liquidity == pool.liquidity
                &&& after.total_supply == root
            }
        }),
{
    lemma_root(
        root,
        (pool.balance0 - pool.reserve0) as nat * (pool.balance1 - pool.reserve1) as nat,
    );
}

} // verus!
