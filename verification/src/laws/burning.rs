use vstd::prelude::*;

use crate::errors::SimulationErrorView;
use crate::laws::minting::{only_supply_changed, record_kept, settled_at};
use crate::laws::numbers::{
    fatal, fits_112, fits_256, is_share, lemma_is_share, lemma_share, out_of_range,
};
use crate::model::{fee_liquidity, PoolView};

verus! {

/// A burn whose fee is refused is refused, and the pool stays as it was.
pub proof fn refused_fee_refuses_burn(pool: PoolView, fee_on: bool)
    ensures
        pool.fee_due(pool.reserve0, pool.reserve1, fee_on) matches Err(error) ==> pool.burn(fee_on)
            == (pool, Err::<(nat, nat), SimulationErrorView>(error)),
{
}

/// A burn pays the full share: what it pays of each token keeps within the share of the tokens
/// that are destroyed, and one more would exceed it.
pub proof fn burn_pays_full_share(pool: PoolView, fee_on: bool)
    requires
        pool.burn(fee_on).1 is Ok,
    ensures
        ({
            let (amount0, amount1) = pool.burn(fee_on).1->Ok_0;
            let owned0 = pool.liquidity * pool.balance0;
            let owned1 = pool.liquidity * pool.balance1;
            &&& amount0 * pool.total_supply <= owned0 < (amount0 + 1) * pool.total_supply
            &&& amount1 * pool.total_supply <= owned1 < (amount1 + 1) * pool.total_supply
        }),
{
    lemma_is_share(pool.liquidity * pool.balance0, pool.total_supply);
    lemma_is_share(pool.liquidity * pool.balance1, pool.total_supply);
}

/// A burn, given the share of each balance that the pair's own tokens stand for: it pays both out,
/// destroys the tokens and leaves the pool settled at what remains. It is refused exactly where one
/// of the products does not fit in 256 bits, where nothing would be paid of one token, where there
/// are more tokens to destroy than in circulation, and where 112 bits do not hold what remains; in
/// the last two cases the tokens, and in the last the balances too, are gone already.
pub proof fn burn_is_exact(pool: PoolView, fee_on: bool, amount0: nat, amount1: nat)
    requires
        pool.fee_due(pool.reserve0, pool.reserve1, fee_on) is Ok,
        is_share(amount0, pool.liquidity * pool.balance0, pool.total_supply),
        is_share(amount1, pool.liquidity * pool.balance1, pool.total_supply),
    ensures
        ({
            let (after, result) = pool.burn(fee_on);
            let supply = pool.total_supply;
            let kept = record_kept(pool.k_last, fee_on);
            if !fits_256(pool.liquidity * pool.balance0) || !fits_256(
                pool.liquidity * pool.balance1,
            ) {
                &&& result == Err::<(nat, nat), SimulationErrorView>(out_of_range())
                &&& only_supply_changed(after, pool, supply, kept)
            } else if amount0 == 0 || amount1 == 0 {
                &&& result == Err::<(nat, nat), SimulationErrorView>(
                    fatal("Insufficient liquidity burned"@),
                )
                &&& only_supply_changed(after, pool, supply, kept)
            } else if supply < pool.liquidity {
                &&& result == Err::<(nat, nat), SimulationErrorView>(out_of_range())
                &&& after.reserve0 == pool.reserve0
                &&& after.reserve1 == pool.reserve1
                &&& after.balance0 == pool.balance0
                &&& after.balance1 == pool.balance1
                &&& after.liquidity == 0
                &&& after.total_supply == supply
                &&& after.k_last == kept
            } else {
                let remaining0 = (pool.balance0 - amount0) as nat;
                let remaining1 = (pool.balance1 - amount1) as nat;
                &&& amount0 <= pool.balance0
                &&& amount1 <= pool.balance1
                &&& after.liquidity == 0
                &&& after.total_supply == supply - pool.liquidity
                &&& if !fits_112(remaining0) || !fits_112(remaining1) {
                    &&& result == Err::<(nat, nat), SimulationErrorView>(fatal("overflow"@))
                    &&& after.reserve0 == pool.reserve0
                    &&& after.reserve1 == pool.reserve1
                    &&& after.balance0 == remaining0
                    &&& after.balance1 == remaining1
                    &&& after.k_last == kept
                } else {
                    &&& result == Ok::<(nat, nat), SimulationErrorView>((amount0, amount1))
                    &&& settled_at(after, remaining0, remaining1, fee_on, pool.k_last)
                }
            }
        }),
{
    let supply = pool.total_supply;
    lemma_share(amount0, pool.liquidity * pool.balance0, supply);
    lemma_share(amount1, pool.liquidity * pool.balance1, supply);
    if supply >= pool.liquidity {
        lemma_part_of_balance(amount0, pool.liquidity, pool.balance0, supply);
        lemma_part_of_balance(amount1, pool.liquidity, pool.balance1, supply);
    }
}

proof fn lemma_part_of_balance(amount: nat, part: nat, balance: nat, whole: nat)
    requires
        amount * whole <= part * balance,
        part <= whole,
        whole > 0,
    ensures
        amount <= balance,
{
    assert(amount <= balance) by (nonlinear_arith)
        requires
            amount * whole <= part * balance,
            part <= whole,
            whole > 0,
    {
        assert(part * balance <= whole * balance);
    }
}

/// A burn without any tokens in circulation is refused, and at most the recorded product is wiped.
/// A product that does not fit is found before the supply of zero.
pub proof fn burn_needs_supply(pool: PoolView, fee_on: bool)
    requires
        pool.fee_due(pool.reserve0, pool.reserve1, fee_on) is Ok,
        pool.total_supply == 0,
    ensures
        ({
            let (after, result) = pool.burn(fee_on);
            &&& only_supply_changed(after, pool, 0, record_kept(pool.k_last, fee_on))
            &&& result == Err::<(nat, nat), SimulationErrorView>(
                if fits_256(pool.liquidity * pool.balance0) {
                    fatal("Division by zero"@)
                } else {
                    out_of_range()
                },
            )
        }),
{
}

/// Tokens are worth their full share of the reserves in the supply with the protocol's tokens: what
/// they are worth of each token keeps within that share, and one more would exceed it. A value is
/// refused exactly where the fee is refused, where the supply or one of the products does not fit
/// in 256 bits, and where there is no supply.
pub proof fn value_is_full_share(pool: PoolView, amount: nat, fee_on: bool, k_last: Option<nat>)
    ensures
        ({
            let due = if fee_on {
                fee_liquidity(pool.total_supply, pool.reserve0, pool.reserve1, k_last)
            } else {
                Ok(0nat)
            };
            let owned0 = pool.reserve0 * amount;
            let owned1 = pool.reserve1 * amount;
            match (due, pool.liquidity_value(amount, fee_on, k_last)) {
                (Err(refused), Err(error)) => error == refused,
                (Err(_), Ok(_)) => false,
                (Ok(due), Ok((worth0, worth1))) => {
                    let supply = pool.total_supply + due;
                    &&& supply > 0
                    &&& fits_256(supply) && fits_256(owned0) && fits_256(owned1)
                    &&& worth0 * supply <= owned0 < (worth0 + 1) * supply
                    &&& worth1 * supply <= owned1 < (worth1 + 1) * supply
                },
                (Ok(due), Err(error)) => {
                    let supply = pool.total_supply + due;
                    if !fits_256(supply) || !fits_256(owned0) || (supply > 0 && !fits_256(owned1)) {
                        error == out_of_range()
                    } else {
                        supply == 0 && error == fatal("Division by zero"@)
                    }
                },
            }
        }),
{
    let due = if fee_on {
        fee_liquidity(pool.total_supply, pool.reserve0, pool.reserve1, k_last)
    } else {
        Ok(0nat)
    };
    if due is Ok && pool.total_supply + due->Ok_0 > 0 {
        lemma_is_share(pool.reserve0 * amount, pool.total_supply + due->Ok_0);
        lemma_is_share(pool.reserve1 * amount, pool.total_supply + due->Ok_0);
    }
}

} // verus!
