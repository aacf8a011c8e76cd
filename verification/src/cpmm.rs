use vstd::prelude::*;

use crate::big_uint::{u256_to_biguint, BigUint};
use crate::errors::{outcome, SimulationError, SimulationErrorView};
use crate::safe_math::{overflow_error, safe_add_u256, safe_div_u256, safe_mul_u256};
use crate::token::{before, bytes_before, Bytes};
use crate::u256::{u256_bound, U256};

verus! {

/// The error of a swap that sells nothing.
pub open spec fn nothing_sold_error() -> SimulationErrorView {
    SimulationErrorView::InvalidInput("Amount in cannot be zero"@)
}

/// The error of a swap in a pool that lacks one of its tokens.
pub open spec fn no_liquidity_error() -> SimulationErrorView {
    SimulationErrorView::RecoverableError("No liquidity"@)
}

/// What a constant product pool pays out of `reserve_buy` for `amount_in` more of `reserve_sell`:
/// the share, rounded down, that `amount_in`, less a fee of `fee_bps` ten-thousandths of it, takes
/// in the sum of itself and `reserve_sell`.
pub open spec fn amount_out(
    amount_in: nat,
    reserve_sell: nat,
    reserve_buy: nat,
    fee_bps: nat,
) -> Result<nat, SimulationErrorView> {
    let sold = amount_in * (10000 - fee_bps) as nat;
    let total = reserve_sell * 10000 + sold;
    if amount_in == 0 {
        Err(nothing_sold_error())
    } else if reserve_sell == 0 || reserve_buy == 0 {
        Err(no_liquidity_error())
    } else if sold * reserve_buy >= u256_bound() || total >= u256_bound() {
        Err(overflow_error())
    } else {
        Ok(sold * reserve_buy / total)
    }
}

/// What a constant product pool pays out for `amount_in`: of token 1 for token 0 if `zero2one`,
/// else of token 0 for token 1.
pub fn cpmm_get_amount_out(
    amount_in: U256,
    zero2one: bool,
    reserve0: U256,
    reserve1: U256,
    fee_bps: u32,
) -> (r: Result<U256, SimulationError>)
    requires
        fee_bps <= 10000,
    ensures
        outcome(r) == (if zero2one {
            amount_out(amount_in@, reserve0@, reserve1@, fee_bps as nat)
        } else {
            amount_out(amount_in@, reserve1@, reserve0@, fee_bps as nat)
        }),
{
    if amount_in.is_zero() {
        return Err(SimulationError::InvalidInput("Amount in cannot be zero".to_string()));
    }
    let reserve_sell = if zero2one {
        reserve0
    } else {
        reserve1
    };
    let reserve_buy = if zero2one {
        reserve1
    } else {
        reserve0
    };
    if reserve_sell.is_zero() || reserve_buy.is_zero() {
        return Err(SimulationError::RecoverableError("No liquidity".to_string()));
    }
    proof {
        let sold = (amount_in@ * (10000 - fee_bps) as nat) as nat;
        assert(sold <= sold * reserve_buy@) by (nonlinear_arith)
            requires
                reserve_buy@ >= 1,
        ;
    }
    let amount_in_with_fee = safe_mul_u256(amount_in, U256::from_u64((10000 - fee_bps) as u64))?;
    let numerator = safe_mul_u256(amount_in_with_fee, reserve_buy)?;
    let denominator = safe_add_u256(
        safe_mul_u256(reserve_sell, U256::from_u64(10000))?,
        amount_in_with_fee,
    )?;
    safe_div_u256(numerator, denominator)
}

/// The soft limits of a swap: what moves the price by nine tenths, `reserve_sell * (sqrt(10) - 1)`
/// in and `reserve_buy * (1 - 1 / sqrt(10))` out, with both factors cut to hundredths.
pub open spec fn limits(reserve_sell: nat, reserve_buy: nat) -> Result<
    (nat, nat),
    SimulationErrorView,
> {
    if reserve_sell == 0 || reserve_buy == 0 {
        Ok((0, 0))
    } else if reserve_sell * 216 >= u256_bound() || reserve_buy * 68 >= u256_bound() {
        Err(overflow_error())
    } else {
        Ok((reserve_sell * 216 / 100, reserve_buy * 68 / 100))
    }
}

/// The soft limits of a swap of `sell_token` for `buy_token`: how much to sell at most, and how
/// much that buys.
pub fn cpmm_get_limits(
    sell_token: Bytes,
    buy_token: Bytes,
    reserve0: U256,
    reserve1: U256,
) -> (r: Result<(BigUint, BigUint), SimulationError>)
    ensures
        r matches Ok(amounts) ==> amounts.0.well_formed() && amounts.1.well_formed(),
        outcome(r) == (if before(sell_token@, buy_token@) {
            limits(reserve0@, reserve1@)
        } else {
            limits(reserve1@, reserve0@)
        }),
{
    if reserve0.is_zero() || reserve1.is_zero() {
        return Ok((u256_to_biguint(U256::zero()), u256_to_biguint(U256::zero())));
    }
    let zero_for_one = bytes_before(&sell_token, &buy_token);
    let (reserve_in, reserve_out) = if zero_for_one {
        (reserve0, reserve1)
    } else {
        (reserve1, reserve0)
    };
    let amount_in = safe_div_u256(
        safe_mul_u256(reserve_in, U256::from_u64(216))?,
        U256::from_u64(100),
    )?;
    let amount_out = safe_div_u256(
        safe_mul_u256(reserve_out, U256::from_u64(68))?,
        U256::from_u64(100),
    )?;
    Ok((u256_to_biguint(amount_in), u256_to_biguint(amount_out)))
}

} // verus!
