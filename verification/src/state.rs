use vstd::prelude::*;

use crate::address::Address;
use crate::big_uint::{biguint_to_u256, u256_to_biguint, BigUint};
use crate::cpmm::{amount_out, cpmm_get_amount_out, cpmm_get_limits};
use crate::delta::ProtocolStateDelta;
use crate::errors::{outcome, transition_outcome, SimulationError, TransitionError};
use crate::model::{
    attribute_or, decodable, fee_liquidity, fits, lemma_reserve_product, swap_fee_bps, PoolView,
    SwapView, MAX_RESERVE,
};
use crate::safe_math::{safe_add_u256, safe_div_u256, safe_mul_u256, safe_sub_u256};
use crate::solidity_math::{lemma_isqrt_bound, sqrt_u256};
use crate::token::{before, bytes_before, Bytes, Token};
use crate::u256::{be_value, lemma_u256_bound, u256_bound, U256};

verus! {

/// The fee of a swap, in ten-thousandths of the amount sold.
pub const UNISWAP_V2_FEE_BPS: u32 = 30;

/// What a swap comes to.
#[derive(Debug)]
pub struct GetAmountOutResult {
    /// Amount paid out.
    pub amount: BigUint,
    /// Gas that the swap takes.
    pub gas: BigUint,
    /// The state after the swap.
    pub new_state: UniswapV2State,
}

impl View for GetAmountOutResult {
    type V = SwapView;

    open spec fn view(&self) -> SwapView {
        SwapView { amount: self.amount@, gas: self.gas@, new_state: self.new_state@ }
    }
}

/// A number that may be absent, by its value.
pub open spec fn optional_value(value: Option<U256>) -> Option<nat> {
    match value {
        Some(value) => Some(value@),
        None => None,
    }
}

/// The state of a pair contract.
#[derive(Clone, Copy, Debug)]
pub struct UniswapV2State {
    pub reserve0: U256,
    pub reserve1: U256,
    pub balance0: U256,
    pub balance1: U256,
    pub liquidity: U256,
    pub total_supply: U256,
    pub k_last: Option<U256>,
}

impl View for UniswapV2State {
    type V = PoolView;

    open spec fn view(&self) -> PoolView {
        PoolView {
            reserve0: self.reserve0@,
            reserve1: self.reserve1@,
            balance0: self.balance0@,
            balance1: self.balance1@,
            liquidity: self.liquidity@,
            total_supply: self.total_supply@,
            k_last: optional_value(self.k_last),
        }
    }
}

/// Two states are the same if all their numbers are. The fee is the same for all.
impl PartialEq for UniswapV2State {
    fn eq(&self, other: &UniswapV2State) -> (r: bool) {
        let same_k_last = match (self.k_last, other.k_last) {
            (Some(a), Some(b)) => a == b,
            (None, None) => true,
            _ => false,
        };
        self.reserve0 == other.reserve0 && self.reserve1 == other.reserve1 && self.balance0
            == other.balance0 && self.balance1 == other.balance1 && self.liquidity
            == other.liquidity && self.total_supply == other.total_supply && same_k_last
    }
}

impl vstd::std_specs::cmp::PartialEqSpecImpl for UniswapV2State {
    open spec fn obeys_eq_spec() -> bool {
        true
    }

    open spec fn eq_spec(&self, other: &UniswapV2State) -> bool {
        self@ == other@
    }
}

impl Eq for UniswapV2State {

}

fn protocol_fee(
    total_supply: U256,
    reserve0: U256,
    reserve1: U256,
    k_last: Option<U256>,
) -> (r: Result<U256, SimulationError>)
    ensures
        outcome(r) == fee_liquidity(
            total_supply@,
            reserve0@,
            reserve1@,
            optional_value(k_last),
        ),
{
    if let Some(k_last) = k_last {
        if !k_last.is_zero() {
            let k = safe_mul_u256(reserve0, reserve1)?;
            let root_k = sqrt_u256(k);
            let root_k_last = sqrt_u256(k_last);
            if root_k_last.less_than(&root_k) {
                proof {
                    lemma_u256_bound(k);
                    lemma_u256_bound(k_last);
                    lemma_isqrt_bound(k@);
                    lemma_isqrt_bound(k_last@);
                }
                let numerator = safe_mul_u256(total_supply, safe_sub_u256(root_k, root_k_last)?)?;
                let denominator = safe_add_u256(
                    safe_mul_u256(root_k, U256::from_u64(5))?,
                    root_k_last,
                )?;
                return safe_div_u256(numerator, denominator);
            }
        }
    }
    Ok(U256::zero())
}

fn decode_or(delta: &ProtocolStateDelta, name: &str, default: U256) -> (r: U256)
    requires
        fits(delta@, name@),
    ensures
        r@ == attribute_or(delta@, name@, default@),
{
    match delta.attribute(name) {
        Some(value) => U256::from_be_slice(value.as_slice()),
        None => default,
    }
}

/// A swap that pays out takes no more from a reserve than is there, and its amount fits beside
/// the other reserve.
proof fn lemma_payout(amount_in: nat, reserve_sell: nat, reserve_buy: nat)
    requires
        amount_out(amount_in, reserve_sell, reserve_buy, swap_fee_bps()) is Ok,
    ensures
        amount_out(amount_in, reserve_sell, reserve_buy, swap_fee_bps())->Ok_0 <= reserve_buy,
        reserve_sell + amount_in < u256_bound(),
{
    let sold = amount_in * 9970;
    assert(sold <= sold * reserve_buy) by (nonlinear_arith)
        requires
            reserve_buy >= 1,
    ;
    lemma_share_bound(sold, reserve_buy, reserve_sell * 10000 + sold);
}

/// The share of a part in a whole does not exceed what is shared.
proof fn lemma_share_bound(part: nat, shared: nat, whole: nat)
    requires
        part <= whole,
        0 < whole,
    ensures
        part * shared / whole <= shared,
{
    let share = part * shared / whole;
    assert(share <= shared) by (nonlinear_arith)
        requires
            share == part * shared / whole,
            part <= whole,
            0 < whole,
    {
        assert(part * shared <= whole * shared);
        assert(share * whole <= part * shared);
    }
}

impl UniswapV2State {
    /// Creates a state with the given reserves.
    ///
    /// * `reserve0` - Reserve of token 0.
    /// * `reserve1` - Reserve of token 1.
    /// * `balance0` - Balance of token 0 in the pair contract.
    /// * `balance1` - Balance of token 1 in the pair contract.
    /// * `liquidity` - Balance of liquidity tokens in the pair contract.
    /// * `total_supply` - All liquidity tokens in circulation.
    /// * `k_last` - Product of the reserves after the last change of liquidity.
    pub fn new(
        reserve0: U256,
        reserve1: U256,
        balance0: U256,
        balance1: U256,
        liquidity: U256,
        total_supply: U256,
        k_last: Option<U256>,
    ) -> (r: Self)
        ensures
            r == (UniswapV2State {
                reserve0,
                reserve1,
                balance0,
                balance1,
                liquidity,
                total_supply,
                k_last,
            }),
    {
        UniswapV2State {
            reserve0,
            reserve1,
            balance0,
            balance1,
            liquidity,
            total_supply,
            k_last,
        }
    }

    /// Sets the reserves to the given balances, which must fit in 112 bits. The old reserves play
    /// no part.
    #[allow(unused_variables)]
    pub fn update(
        &mut self,
        balance0: U256,
        balance1: U256,
        reserve0: U256,
        reserve1: U256,
    ) -> (r: Result<(), SimulationError>)
        ensures
            final(self)@ == old(self)@.update(balance0@, balance1@).0,
            outcome(r) == old(self)@.update(balance0@, balance1@).1,
            r is Ok ==> final(self).reserve0 == balance0 && final(self).reserve1 == balance1,
            r is Err ==> *final(self) == *old(self),
    {
        let limit = U256::from_u128(MAX_RESERVE);
        if limit.less_than(&balance0) || limit.less_than(&balance1) {
            return Err(SimulationError::FatalError("overflow".to_string()));
        }
        self.reserve0 = balance0;
        self.reserve1 = balance1;
        Ok(())
    }

    /// Whether tokens are due to the protocol at the given reserves.
    pub fn fee_is_due(&self, reserve0: U256, reserve1: U256, fee_on: bool) -> (r: bool)
        ensures
            r == self@.fee_is_due(reserve0@, reserve1@, fee_on),
    {
        fee_on && match protocol_fee(self.total_supply, reserve0, reserve1, self.k_last) {
            Ok(due) => !due.is_zero(),
            Err(_) => false,
        }
    }

    /// Whether a [`mint`](Self::mint) or a [`burn`](Self::burn) comes to an end in this state.
    pub fn mint_ends(&self, fee_on: bool) -> (r: bool)
        ensures
            r == self@.mint_ends(fee_on),
    {
        self.balance0.less_than(&self.reserve0) || self.balance1.less_than(&self.reserve1)
            || !self.fee_is_due(self.reserve0, self.reserve1, fee_on)
    }

    /// Issues the tokens that are due to the protocol, and says whether a fee is taken: it is if
    /// `fee_to` names a receiver. Where none is taken, a recorded product is wiped.
    ///
    /// Tokens that are due are issued by a [`mint`](Self::mint), whose own outcome is dropped. That
    /// mint must be one that comes to an end.
    pub fn mint_fee(
        &mut self,
        reserve0: U256,
        reserve1: U256,
        fee_to: Option<Bytes>,
    ) -> (r: Result<bool, SimulationError>)
        requires
            old(self)@.fee_is_due(reserve0@, reserve1@, fee_to is Some) ==> old(self)@.mint_ends(
                fee_to is Some,
            ),
        ensures
            final(self)@ == old(self)@.mint_fee(reserve0@, reserve1@, fee_to is Some).0,
            outcome(r) == old(self)@.mint_fee(reserve0@, reserve1@, fee_to is Some).1,
        decreases
                if old(self)@.fee_is_due(reserve0@, reserve1@, fee_to is Some) {
                    2int
                } else {
                    0
                },
    {
        let fee_on = fee_to.is_some();
        if fee_on {
            let liquidity = protocol_fee(self.total_supply, reserve0, reserve1, self.k_last)?;
            if !liquidity.is_zero() {
                let _ = self.mint(fee_to);
            }
        } else if let Some(k_last) = self.k_last {
            if !k_last.is_zero() {
                self.k_last = Some(U256::zero());
            }
        }
        Ok(fee_on)
    }

    /// Issues liquidity tokens for what the balances exceed the reserves by, and returns how many.
    ///
    /// While tokens are due to the protocol and the balances cover the reserves, a mint starts
    /// another one without end, so that such a state is not accepted; [`mint_ends`](Self::mint_ends)
    /// tells.
    pub fn mint(&mut self, fee_to: Option<Bytes>) -> (r: Result<U256, SimulationError>)
        requires
            old(self)@.mint_ends(fee_to is Some),
        ensures
            final(self)@ == old(self)@.mint(fee_to is Some).0,
            outcome(r) == old(self)@.mint(fee_to is Some).1,
        decreases 1int,
    {
        let minimum_liquidity = U256::from_u64(1000);
        let reserve0 = self.reserve0;
        let reserve1 = self.reserve1;
        let balance0 = self.balance0;
        let balance1 = self.balance1;
        proof {
            lemma_u256_bound(balance0);
            lemma_u256_bound(balance1);
        }

        let amount0 = safe_sub_u256(balance0, reserve0)?;
        let amount1 = safe_sub_u256(balance1, reserve1)?;

        let fee_on = self.mint_fee(reserve0, reserve1, fee_to)?;

        let liquidity = if self.total_supply.is_zero() {
            let product = safe_mul_u256(amount0, amount1)?;
            let root = sqrt_u256(product);
            proof {
                lemma_u256_bound(root);
            }
            let liquidity = safe_sub_u256(root, minimum_liquidity)?;
            self.total_supply = safe_add_u256(self.total_supply, minimum_liquidity)?;
            liquidity
        } else {
            let share0 = safe_div_u256(safe_mul_u256(amount0, self.total_supply)?, reserve0)?;
            let share1 = safe_div_u256(safe_mul_u256(amount1, self.total_supply)?, reserve1)?;
            if share1.less_than(&share0) {
                share1
            } else {
                share0
            }
        };

        self.issue(liquidity, fee_on)
    }

    /// Issues `liquidity` tokens, which must be some, and settles.
    fn issue(&mut self, liquidity: U256, fee_on: bool) -> (r: Result<U256, SimulationError>)
        ensures
            final(self)@ == old(self)@.issue(liquidity@, fee_on).0,
            outcome(r) == old(self)@.issue(liquidity@, fee_on).1,
    {
        if liquidity.is_zero() {
            return Err(SimulationError::FatalError("Insufficient liquidity minted".to_string()));
        }
        // The sum is not kept, but it must fit.
        let _balance = safe_add_u256(self.liquidity, liquidity)?;
        self.total_supply = safe_add_u256(self.total_supply, liquidity)?;
        self.settle(fee_on)?;
        Ok(liquidity)
    }

    /// Sets the reserves to the balances, and records their product if a fee is taken.
    fn settle(&mut self, fee_on: bool) -> (r: Result<(), SimulationError>)
        ensures
            final(self)@ == old(self)@.settle((), fee_on).0,
            outcome(r) == old(self)@.settle((), fee_on).1,
    {
        self.update(self.balance0, self.balance1, self.reserve0, self.reserve1)?;
        if fee_on {
            proof {
                lemma_reserve_product(self.reserve0@, self.reserve1@);
            }
            self.k_last = Some(safe_mul_u256(self.reserve0, self.reserve1)?);
        }
        Ok(())
    }

    /// Destroys the pair's own liquidity tokens and returns what was paid out for them of token 0
    /// and of token 1.
    ///
    /// The fee step starts a [`mint`](Self::mint) if tokens are due to the protocol, which must be
    /// one that comes to an end.
    pub fn burn(&mut self, fee_to: Option<Bytes>) -> (r: Result<(U256, U256), SimulationError>)
        requires
            old(self)@.mint_ends(fee_to is Some),
        ensures
            final(self)@ == old(self)@.burn(fee_to is Some).0,
            outcome(r) == old(self)@.burn(fee_to is Some).1,
    {
        let reserve0 = self.reserve0;
        let reserve1 = self.reserve1;
        let balance0 = self.balance0;
        let balance1 = self.balance1;
        let liquidity = self.liquidity;

        let fee_on = self.mint_fee(reserve0, reserve1, fee_to)?;

        let amount0 = safe_div_u256(safe_mul_u256(liquidity, balance0)?, self.total_supply)?;
        let amount1 = safe_div_u256(safe_mul_u256(liquidity, balance1)?, self.total_supply)?;

        if amount0.is_zero() || amount1.is_zero() {
            return Err(SimulationError::FatalError("Insufficient liquidity burned".to_string()));
        }
        let ghost supply: nat = self.total_supply@;
        self.liquidity = safe_sub_u256(liquidity, liquidity)?;
        proof {
            lemma_u256_bound(self.total_supply);
            lemma_u256_bound(balance0);
            lemma_u256_bound(balance1);
        }
        self.total_supply = safe_sub_u256(self.total_supply, liquidity)?;

        proof {
            lemma_share_bound(liquidity@, balance0@, supply);
            lemma_share_bound(liquidity@, balance1@, supply);
        }
        self.balance0 = safe_sub_u256(balance0, amount0)?;
        self.balance1 = safe_sub_u256(balance1, amount1)?;
        self.settle(fee_on)?;
        Ok((amount0, amount1))
    }

    /// What `liquidity_amount` liquidity tokens are worth of token 0 and of token 1, given the
    /// product of the reserves after the last change of liquidity.
    pub fn compute_liquidity_value(
        &self,
        liquidity_amount: U256,
        fee_on: bool,
        k_last: Option<U256>,
    ) -> (r: Result<(U256, U256), SimulationError>)
        ensures
            outcome(r) == self@.liquidity_value(
                liquidity_amount@,
                fee_on,
                optional_value(k_last),
            ),
    {
        let reserve0 = self.reserve0;
        let reserve1 = self.reserve1;
        let mut total_supply = self.total_supply;
        proof {
            lemma_u256_bound(total_supply);
        }
        if fee_on {
            let fee_liquidity = protocol_fee(total_supply, reserve0, reserve1, k_last)?;
            total_supply = safe_add_u256(total_supply, fee_liquidity)?;
        }
        let token_a_amount = safe_div_u256(
            safe_mul_u256(reserve0, liquidity_amount)?,
            total_supply,
        )?;
        let token_b_amount = safe_div_u256(
            safe_mul_u256(reserve1, liquidity_amount)?,
            total_supply,
        )?;
        Ok((token_a_amount, token_b_amount))
    }

    /// What `liquidity_amount` liquidity tokens are worth of token 0 and of token 1 now. The pool
    /// can be manipulated to shift this value, as in a sandwich attack.
    pub fn get_liquidity_value(&mut self, liquidity_amount: U256) -> (r: Result<
        (U256, U256),
        SimulationError,
    >)
        ensures
            *final(self) == *old(self),
            outcome(r) == old(self)@.liquidity_value(
                liquidity_amount@,
                true,
                old(self)@.k_last,
            ),
    {
        let fee_on = Self::fee_to().is_some();
        let k_last = if fee_on {
            self.k_last
        } else {
            Some(U256::zero())
        };
        self.compute_liquidity_value(liquidity_amount, fee_on, k_last)
    }

    /// The receiver of the protocol's fee: the zero address.
    pub fn fee_to() -> (r: Option<Address>)
        ensures
            r matches Some(address) && address@ == Seq::new(20, |i: int| 0u8),
    {
        proof {
            reveal_strlit("0000000000000000000000000000000000000000");
        }
        let address = Address::from_str("0000000000000000000000000000000000000000").unwrap();
        proof {
            assert(address@ =~= Seq::new(20, |i: int| 0u8));
        }
        Some(address)
    }

    /// Swaps `amount_in` of `token_in` for `token_out`. The token whose address comes first is
    /// token 0. The state itself stays as it is: the result holds the one after the swap.
    ///
    /// `amount_in` must fit in 256 bits.
    pub fn get_amount_out(&self, amount_in: BigUint, token_in: &Token, token_out: &Token) -> (r:
        Result<GetAmountOutResult, SimulationError>)
        requires
            amount_in.well_formed(),
            amount_in@ < u256_bound(),
        ensures
            outcome(r) == self@.swap(amount_in@, before(token_in.address@, token_out.address@)),
            r matches Ok(result) ==> result.amount.well_formed() && result.gas.well_formed(),
    {
        let amount_in = biguint_to_u256(&amount_in);
        let zero2one = bytes_before(&token_in.address, &token_out.address);
        let amount_out = cpmm_get_amount_out(
            amount_in,
            zero2one,
            self.reserve0,
            self.reserve1,
            UNISWAP_V2_FEE_BPS,
        )?;
        proof {
            lemma_u256_bound(self.reserve0);
            lemma_u256_bound(self.reserve1);
            if zero2one {
                lemma_payout(amount_in@, self.reserve0@, self.reserve1@);
            } else {
                lemma_payout(amount_in@, self.reserve1@, self.reserve0@);
            }
        }
        let mut new_state = *self;
        if zero2one {
            new_state.reserve0 = safe_add_u256(self.reserve0, amount_in)?;
            new_state.reserve1 = safe_sub_u256(self.reserve1, amount_out)?;
        } else {
            new_state.reserve0 = safe_sub_u256(self.reserve0, amount_out)?;
            new_state.reserve1 = safe_add_u256(self.reserve1, amount_in)?;
        }
        Ok(
            GetAmountOutResult {
                amount: u256_to_biguint(amount_out),
                gas: BigUint::from_i32(120_000).unwrap(),
                new_state,
            },
        )
    }

    /// The soft limits of a swap of `sell_token` for `buy_token`: how much to sell at most, which
    /// moves the price by nine tenths, and how much that buys.
    pub fn get_limits(&self, sell_token: Bytes, buy_token: Bytes) -> (r: Result<
        (BigUint, BigUint),
        SimulationError,
    >)
        ensures
            outcome(r) == self@.swap_limits(before(sell_token@, buy_token@)),
            r matches Ok(amounts) ==> amounts.0.well_formed() && amounts.1.well_formed(),
    {
        cpmm_get_limits(sell_token, buy_token, self.reserve0, self.reserve1)
    }

    /// Applies a delta. `reserve0` and `reserve1` are expected in every delta; `balance0`,
    /// `balance1` and `liquidity` keep their values where it does not hold them. No attribute that
    /// is read may have more than 32 bytes.
    pub fn delta_transition(&mut self, delta: ProtocolStateDelta) -> (r: Result<
        (),
        TransitionError,
    >)
        requires
            decodable(delta@),
        ensures
            final(self)@ == old(self)@.transition(delta@).0,
            transition_outcome(r) == old(self)@.transition(delta@).1,
            r is Ok <==> delta@.contains_key("reserve0"@) && delta@.contains_key("reserve1"@),
            r is Ok ==> final(self).reserve0@ == be_value(delta@["reserve0"@]),
            r is Ok ==> final(self).reserve1@ == be_value(delta@["reserve1"@]),
            r is Err ==> *final(self) == *old(self),
    {
        let reserve0 = match delta.attribute("reserve0") {
            Some(value) => U256::from_be_slice(value.as_slice()),
            None => return Err(TransitionError::MissingAttribute("reserve0".to_string())),
        };
        let reserve1 = match delta.attribute("reserve1") {
            Some(value) => U256::from_be_slice(value.as_slice()),
            None => return Err(TransitionError::MissingAttribute("reserve1".to_string())),
        };
        let balance0 = decode_or(&delta, "balance0", self.balance0);
        let balance1 = decode_or(&delta, "balance1", self.balance1);
        let liquidity = decode_or(&delta, "liquidity", self.liquidity);
        let total_supply = U256::from_u64(10000);

        self.reserve0 = reserve0;
        self.reserve1 = reserve1;
        self.balance0 = balance0;
        self.balance1 = balance1;
        self.liquidity = liquidity;
        self.total_supply = total_supply;
        Ok(())
    }
}

} // verus!
