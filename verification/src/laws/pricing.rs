use vstd::prelude::*;

use crate::cpmm::{amount_out, limits};
use crate::errors::SimulationErrorView;
use crate::laws::numbers::{fits_256, lemma_is_share, out_of_range};
use crate::model::{PoolView, SwapView};

verus! {

/// The reserve of the token that a swap sells.
pub open spec fn reserve_in(pool: PoolView, zero2one: bool) -> nat {
    if zero2one {
        pool.reserve0
    } else {
        pool.reserve1
    }
}

/// The reserve of the token that a swap buys.
pub open spec fn reserve_out(pool: PoolView, zero2one: bool) -> nat {
    if zero2one {
        pool.reserve1
    } else {
        pool.reserve0
    }
}

/// A pool pays the most that keeps `paid * (10000 * reserve_sell + net)` within
/// `net * reserve_buy`, where `net` is the amount sold in ten-thousandths, less the fee. It does so
/// wherever these numbers fit in 256 bits.
pub proof fn pool_pays_full_share(
    amount_in: nat,
    reserve_sell: nat,
    reserve_buy: nat,
    fee_bps: nat,
)
    requires
        amount_in > 0,
        reserve_sell > 0,
        reserve_buy > 0,
        fee_bps <= 10000,
    ensures
        ({
            let net = amount_in * (10000 - fee_bps) as nat;
            let offered = net * reserve_buy;
            let whole = reserve_sell * 10000 + net;
            match amount_out(amount_in, reserve_sell, reserve_buy, fee_bps) {
                Ok(paid) => {
                    &&& fits_256(offered) && fits_256(whole)
                    &&& paid * whole <= offered < (paid + 1) * whole
                },
                Err(error) => {
                    &&& !fits_256(offered) || !fits_256(whole)
                    &&& error == out_of_range()
                },
            }
        }),
{
    let net = amount_in * (10000 - fee_bps) as nat;
    lemma_is_share(net * reserve_buy, reserve_sell * 10000 + net);
}

/// A swap pays the most that keeps `paid * (10000 * reserve_in + 9970 * amount_in)` within
/// `9970 * amount_in * reserve_out`, and it does so wherever these numbers fit in 256 bits. Its gas
/// is always the same.
pub proof fn swap_pays_full_share(pool: PoolView, amount_in: nat, zero2one: bool)
    requires
        amount_in > 0,
        pool.reserve0 > 0,
        pool.reserve1 > 0,
    ensures
        ({
            let offered = amount_in * 9970 * reserve_out(pool, zero2one);
            let whole = reserve_in(pool, zero2one) * 10000 + amount_in * 9970;
            match pool.swap(amount_in, zero2one) {
                Ok(result) => {
                    &&& fits_256(offered) && fits_256(whole)
                    &&& result.amount * whole <= offered < (result.amount + 1) * whole
                    &&& result.gas == 120000
                },
                Err(error) => {
                    &&& !fits_256(offered) || !fits_256(whole)
                    &&& error == out_of_range()
                },
            }
        }),
{
    pool_pays_full_share(
        amount_in,
        reserve_in(pool, zero2one),
        reserve_out(pool, zero2one),
        30,
    );
}

/// A swap that pays adds what is sold to one reserve and takes what is bought from the other,
/// never more than there is; nothing else changes.
pub proof fn swap_moves_what_it_pays(pool: PoolView, amount_in: nat, zero2one: bool)
    requires
        pool.swap(amount_in, zero2one) is Ok,
    ensures
        ({
            let result = pool.swap(amount_in, zero2one)->Ok_0;
            let after = result.new_state;
            &&& reserve_in(after, zero2one) == reserve_in(pool, zero2one) + amount_in
            &&& reserve_out(after, zero2one) + result.amount == reserve_out(pool, zero2one)
            &&& after.balance0 == pool.balance0
            &&& after.balance1 == pool.balance1
            &&& after.liquidity == pool.liquidity
            &&& after.total_supply == pool.total_supply
            &&& after.k_last == pool.k_last
        }),
{
    let net = amount_in * 9970;
    let whole = reserve_in(pool, zero2one) * 10000 + net;
    let bought = reserve_out(pool, zero2one);
    let paid = net * bought / whole;
    lemma_is_share(net * bought, whole);
    assert(paid <= bought) by (nonlinear_arith)
        requires
            paid * whole <= net * bought,
            net <= whole,
            whole > 0,
    ;
}

/// A swap that sells nothing is refused whatever the pool holds. One that sells something is
/// refused if the pool lacks one of its tokens.
pub proof fn empty_swap_is_refused(pool: PoolView, amount_in: nat, zero2one: bool)
    ensures
        amount_in == 0 ==> pool.swap(amount_in, zero2one) == Err::<SwapView, SimulationErrorView>(
            SimulationErrorView::InvalidInput("Amount in cannot be zero"@),
        ),
        amount_in > 0 && (pool.reserve0 == 0 || pool.reserve1 == 0) ==> pool.swap(
            amount_in,
            zero2one,
        ) == Err::<SwapView, SimulationErrorView>(
            SimulationErrorView::RecoverableError("No liquidity"@),
        ),
{
}

/// The same of the price alone, at any fee.
pub proof fn empty_price_is_refused(
    amount_in: nat,
    reserve_sell: nat,
    reserve_buy: nat,
    fee_bps: nat,
)
    ensures
        amount_in == 0 ==> amount_out(amount_in, reserve_sell, reserve_buy, fee_bps) == Err::<
            nat,
            SimulationErrorView,
        >(SimulationErrorView::InvalidInput("Amount in cannot be zero"@)),
        amount_in > 0 && (reserve_sell == 0 || reserve_buy == 0) ==> amount_out(
            amount_in,
            reserve_sell,
            reserve_buy,
            fee_bps,
        ) == Err::<nat, SimulationErrorView>(SimulationErrorView::RecoverableError("No liquidity"@)),
{
}

/// The limits are 2.16 times the reserve sold and 0.68 times the reserve bought, both rounded down.
/// They are refused only where 216 times the one or 68 times the other does not fit, and both are
/// zero for a pool that lacks one of its tokens.
pub proof fn limits_are_parts_of_reserves(reserve_sell: nat, reserve_buy: nat)
    ensures
        reserve_sell == 0 || reserve_buy == 0 ==> (limits(reserve_sell, reserve_buy) matches Ok(
            amounts,
        ) && amounts.0 == 0 && amounts.1 == 0),
        reserve_sell > 0 && reserve_buy > 0 ==> match limits(reserve_sell, reserve_buy) {
            Ok((sold, bought)) => {
                &&& fits_256(reserve_sell * 216) && fits_256(reserve_buy * 68)
                &&& 100 * sold <= 216 * reserve_sell < 100 * (sold + 1)
                &&& 100 * bought <= 68 * reserve_buy < 100 * (bought + 1)
            },
            Err(error) => {
                &&& !fits_256(reserve_sell * 216) || !fits_256(reserve_buy * 68)
                &&& error == out_of_range()
            },
        },
{
}

/// The limits of a swap are those of the reserve that it sells and the one that it buys.
pub proof fn swap_limits_follow_direction(pool: PoolView, zero2one: bool)
    ensures
        pool.swap_limits(zero2one) == limits(
            reserve_in(pool, zero2one),
            reserve_out(pool, zero2one),
        ),
{
}

} // verus!
