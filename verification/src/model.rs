use vstd::prelude::*;

use crate::cpmm::{amount_out, limits};
use crate::errors::{SimulationErrorView, TransitionErrorView};
use crate::safe_math::{overflow_error, product_quotient};
use crate::solidity_math::isqrt;
use crate::u256::{be_value, u256_bound};

verus! {

/// The numbers of a pair contract.
pub struct PoolView {
    /// Reserve of token 0.
    pub reserve0: nat,
    /// Reserve of token 1.
    pub reserve1: nat,
    /// Balance of token 0 in the pair contract.
    pub balance0: nat,
    /// Balance of token 1 in the pair contract.
    pub balance1: nat,
    /// Balance of liquidity tokens in the pair contract.
    pub liquidity: nat,
    /// All liquidity tokens in circulation.
    pub total_supply: nat,
    /// Product of the reserves after the last change of liquidity.
    pub k_last: Option<nat>,
}

/// What a swap comes to.
pub struct SwapView {
    /// Amount paid out.
    pub amount: nat,
    /// Gas that the swap takes.
    pub gas: nat,
    /// The pool after the swap.
    pub new_state: PoolView,
}

/// The fee of a swap, in ten-thousandths of the amount sold.
pub open spec fn swap_fee_bps() -> nat {
    30
}

/// The gas that a swap takes.
pub open spec fn swap_gas() -> nat {
    120000
}

/// The supply that a pool has after a delta, which does not tell it.
pub open spec fn indexed_supply() -> nat {
    10000
}

/// The number that an attribute spells, or `default` where there is no such attribute.
pub open spec fn attribute_or(
    attributes: Map<Seq<char>, Seq<u8>>,
    name: Seq<char>,
    default: nat,
) -> nat {
    if attributes.contains_key(name) {
        be_value(attributes[name])
    } else {
        default
    }
}

/// Whether an attribute, if there is one of this name, has no more than 32 bytes.
pub open spec fn fits(attributes: Map<Seq<char>, Seq<u8>>, name: Seq<char>) -> bool {
    attributes.contains_key(name) ==> attributes[name].len() <= 32
}

/// Whether every attribute that a transition reads fits in 256 bits.
pub open spec fn decodable(attributes: Map<Seq<char>, Seq<u8>>) -> bool {
    &&& fits(attributes, "reserve0"@)
    &&& attributes.contains_key("reserve0"@) ==> fits(attributes, "reserve1"@)
    &&& attributes.contains_key("reserve0"@) && attributes.contains_key("reserve1"@) ==> {
        &&& fits(attributes, "balance0"@)
        &&& fits(attributes, "balance1"@)
        &&& fits(attributes, "liquidity"@)
    }
}

/// Liquidity tokens that the first mint locks up.
pub open spec fn minimum_liquidity() -> nat {
    1000
}

/// The error of a mint that would issue no tokens.
pub open spec fn nothing_minted_error() -> SimulationErrorView {
    SimulationErrorView::FatalError("Insufficient liquidity minted"@)
}

/// The error of a burn that would pay out nothing of one of the tokens.
pub open spec fn nothing_burned_error() -> SimulationErrorView {
    SimulationErrorView::FatalError("Insufficient liquidity burned"@)
}

/// The greatest reserve that a pair can hold: 112 bits of ones.
pub const MAX_RESERVE: u128 = 0xffff_ffff_ffff_ffff_ffff_ffff_ffff;

/// The product of two reserves of 112 bits fits in 224, let alone in 256.
pub proof fn lemma_reserve_product(reserve0: nat, reserve1: nat)
    requires
        reserve0 <= MAX_RESERVE,
        reserve1 <= MAX_RESERVE,
    ensures
        reserve0 * reserve1 < u256_bound(),
{
    let limit: nat = MAX_RESERVE as nat;
    assert(reserve0 * reserve1 <= limit * limit) by (nonlinear_arith)
        requires
            reserve0 <= limit,
            reserve1 <= limit,
    ;
    assert(limit * limit < 0x1_00000000_00000000_00000000_00000000_00000000_00000000_00000000)
        by (nonlinear_arith)
        requires
            limit == 0xffff_ffff_ffff_ffff_ffff_ffff_ffff,
    ;
}

/// The error of a reserve that 112 bits do not hold.
pub open spec fn reserve_overflow_error() -> SimulationErrorView {
    SimulationErrorView::FatalError("overflow"@)
}

/// Liquidity tokens that are due to the protocol: one sixth of the growth of the root of the
/// product of the reserves since `k_last`.
pub open spec fn fee_liquidity(
    total_supply: nat,
    reserve0: nat,
    reserve1: nat,
    k_last: Option<nat>,
) -> Result<nat, SimulationErrorView> {
    match k_last {
        Some(k) if k > 0 => {
            let root_k = isqrt(reserve0 * reserve1);
            let root_k_last = isqrt(k);
            if reserve0 * reserve1 >= u256_bound() {
                Err(overflow_error())
            } else if root_k <= root_k_last {
                Ok(0)
            } else {
                product_quotient(
                    total_supply,
                    (root_k - root_k_last) as nat,
                    root_k * 5 + root_k_last,
                )
            }
        },
        _ => Ok(0),
    }
}

impl PoolView {
    /// Liquidity tokens that are due to the protocol at the given reserves.
    pub open spec fn fee_due(self, reserve0: nat, reserve1: nat, fee_on: bool) -> Result<
        nat,
        SimulationErrorView,
    > {
        if fee_on {
            fee_liquidity(self.total_supply, reserve0, reserve1, self.k_last)
        } else {
            Ok(0)
        }
    }

    /// Whether tokens are due to the protocol at the given reserves.
    pub open spec fn fee_is_due(self, reserve0: nat, reserve1: nat, fee_on: bool) -> bool {
        self.fee_due(reserve0, reserve1, fee_on) matches Ok(due) && due > 0
    }

    /// Whether the balances cover the reserves.
    pub open spec fn covered(self) -> bool {
        self.reserve0 <= self.balance0 && self.reserve1 <= self.balance1
    }

    /// Whether a mint comes to an end. Tokens that are due to the protocol are issued by a mint of
    /// their own, which in turn finds them due and starts another, unless the balances do not
    /// cover the reserves.
    pub open spec fn mint_ends(self, fee_on: bool) -> bool {
        !(self.covered() && self.fee_is_due(self.reserve0, self.reserve1, fee_on))
    }

    /// The pool with its record of the last product wiped where no fee is taken.
    pub open spec fn k_last_wiped(self, fee_on: bool) -> PoolView {
        if !fee_on && self.k_last is Some {
            PoolView { k_last: Some(0), ..self }
        } else {
            self
        }
    }

    /// Reserves set to the given balances, which must fit in 112 bits.
    pub open spec fn update(self, balance0: nat, balance1: nat) -> (
        PoolView,
        Result<(), SimulationErrorView>,
    ) {
        if balance0 <= MAX_RESERVE && balance1 <= MAX_RESERVE {
            (PoolView { reserve0: balance0, reserve1: balance1, ..self }, Ok(()))
        } else {
            (self, Err(reserve_overflow_error()))
        }
    }

    /// The pool after a change of liquidity: reserves follow the balances, and where a fee is
    /// taken their product is recorded.
    pub open spec fn settle<T>(self, value: T, fee_on: bool) -> (
        PoolView,
        Result<T, SimulationErrorView>,
    ) {
        match self.update(self.balance0, self.balance1) {
            (after, Ok(_)) => (
                PoolView {
                    k_last: if fee_on {
                        Some(after.reserve0 * after.reserve1)
                    } else {
                        after.k_last
                    },
                    ..after
                },
                Ok(value),
            ),
            (after, Err(error)) => (after, Err(error)),
        }
    }

    /// The fee step: `fee_on` if the protocol's tokens could be computed, and the pool after they
    /// were issued.
    pub open spec fn mint_fee(self, reserve0: nat, reserve1: nat, fee_on: bool) -> (
        PoolView,
        Result<bool, SimulationErrorView>,
    ) {
        match self.fee_due(reserve0, reserve1, fee_on) {
            Ok(due) => (
                if due > 0 {
                    self.mint(fee_on).0
                } else {
                    self.k_last_wiped(fee_on)
                },
                Ok(fee_on),
            ),
            Err(error) => (self, Err(error)),
        }
    }

    /// A mint that comes to an end: tokens for what the balances exceed the reserves by.
    pub open spec fn mint(self, fee_on: bool) -> (PoolView, Result<nat, SimulationErrorView>) {
        if !self.covered() {
            (self, Err(overflow_error()))
        } else {
            match self.fee_due(self.reserve0, self.reserve1, fee_on) {
                Ok(_) => self.k_last_wiped(fee_on).mint_shares(fee_on),
                Err(error) => (self, Err(error)),
            }
        }
    }

    /// A mint after its fee step. The first mint issues the root of the product of the amounts and
    /// locks up a minimum; every later one issues in proportion to the lesser amount.
    pub open spec fn mint_shares(self, fee_on: bool) -> (
        PoolView,
        Result<nat, SimulationErrorView>,
    ) {
        let amount0 = (self.balance0 - self.reserve0) as nat;
        let amount1 = (self.balance1 - self.reserve1) as nat;
        if self.total_supply == 0 {
            if amount0 * amount1 >= u256_bound() || isqrt(amount0 * amount1)
                < minimum_liquidity() {
                (self, Err(overflow_error()))
            } else {
                PoolView { total_supply: minimum_liquidity(), ..self }.issue(
                    (isqrt(amount0 * amount1) - minimum_liquidity()) as nat,
                    fee_on,
                )
            }
        } else {
            match (
                product_quotient(amount0, self.total_supply, self.reserve0),
                product_quotient(amount1, self.total_supply, self.reserve1),
            ) {
                (Ok(share0), Ok(share1)) => self.issue(
                    if share0 <= share1 {
                        share0
                    } else {
                        share1
                    },
                    fee_on,
                ),
                (Err(error), _) => (self, Err(error)),
                (_, Err(error)) => (self, Err(error)),
            }
        }
    }

    /// Issues `amount` tokens, which must be some, and settles.
    pub open spec fn issue(self, amount: nat, fee_on: bool) -> (
        PoolView,
        Result<nat, SimulationErrorView>,
    ) {
        if amount == 0 {
            (self, Err(nothing_minted_error()))
        } else if self.liquidity + amount >= u256_bound() || self.total_supply + amount
            >= u256_bound() {
            (self, Err(overflow_error()))
        } else {
            PoolView { total_supply: self.total_supply + amount, ..self }.settle(amount, fee_on)
        }
    }

    /// A burn whose fee step comes to an end: the pair's own tokens are destroyed for their share
    /// of the balances.
    pub open spec fn burn(self, fee_on: bool) -> (
        PoolView,
        Result<(nat, nat), SimulationErrorView>,
    ) {
        match self.fee_due(self.reserve0, self.reserve1, fee_on) {
            Ok(_) => self.k_last_wiped(fee_on).burn_shares(fee_on),
            Err(error) => (self, Err(error)),
        }
    }

    /// A burn after its fee step.
    pub open spec fn burn_shares(self, fee_on: bool) -> (
        PoolView,
        Result<(nat, nat), SimulationErrorView>,
    ) {
        match (
            product_quotient(self.liquidity, self.balance0, self.total_supply),
            product_quotient(self.liquidity, self.balance1, self.total_supply),
        ) {
            (Ok(amount0), Ok(amount1)) => if amount0 == 0 || amount1 == 0 {
                (self, Err(nothing_burned_error()))
            } else if self.total_supply < self.liquidity {
                (PoolView { liquidity: 0, ..self }, Err(overflow_error()))
            } else {
                PoolView {
                    liquidity: 0,
                    total_supply: (self.total_supply - self.liquidity) as nat,
                    balance0: (self.balance0 - amount0) as nat,
                    balance1: (self.balance1 - amount1) as nat,
                    ..self
                }.settle((amount0, amount1), fee_on)
            },
            (Err(error), _) => (self, Err(error)),
            (_, Err(error)) => (self, Err(error)),
        }
    }

    /// What `amount` liquidity tokens are worth of each token, after the protocol's tokens have
    /// been added to the supply.
    pub open spec fn liquidity_value(
        self,
        amount: nat,
        fee_on: bool,
        k_last: Option<nat>,
    ) -> Result<(nat, nat), SimulationErrorView> {
        let due = if fee_on {
            fee_liquidity(self.total_supply, self.reserve0, self.reserve1, k_last)
        } else {
            Ok(0)
        };
        match due {
            Ok(due) => {
                let supply = self.total_supply + due;
                if supply >= u256_bound() {
                    Err(overflow_error())
                } else {
                    match (
                        product_quotient(self.reserve0, amount, supply),
                        product_quotient(self.reserve1, amount, supply),
                    ) {
                        (Ok(amount0), Ok(amount1)) => Ok((amount0, amount1)),
                        (Err(error), _) => Err(error),
                        (_, Err(error)) => Err(error),
                    }
                }
            },
            Err(error) => Err(error),
        }
    }

    /// A swap of `amount_in` of token 0 for token 1 if `zero2one`, else of token 1 for token 0: the
    /// amount paid out, and the pool with the reserves moved by both amounts.
    pub open spec fn swap(self, amount_in: nat, zero2one: bool) -> Result<
        SwapView,
        SimulationErrorView,
    > {
        let paid = if zero2one {
            amount_out(amount_in, self.reserve0, self.reserve1, swap_fee_bps())
        } else {
            amount_out(amount_in, self.reserve1, self.reserve0, swap_fee_bps())
        };
        match paid {
            Ok(amount) => Ok(
                SwapView {
                    amount,
                    gas: swap_gas(),
                    new_state: if zero2one {
                        PoolView {
                            reserve0: self.reserve0 + amount_in,
                            reserve1: (self.reserve1 - amount) as nat,
                            ..self
                        }
                    } else {
                        PoolView {
                            reserve0: (self.reserve0 - amount) as nat,
                            reserve1: self.reserve1 + amount_in,
                            ..self
                        }
                    },
                },
            ),
            Err(error) => Err(error),
        }
    }

    /// The soft limits of a swap, as in [`limits`].
    pub open spec fn swap_limits(self, zero2one: bool) -> Result<(nat, nat), SimulationErrorView> {
        if zero2one {
            limits(self.reserve0, self.reserve1)
        } else {
            limits(self.reserve1, self.reserve0)
        }
    }

    /// The pool after a delta. The reserves must be among its attributes; balances and liquidity
    /// stay as they are where it does not hold them.
    pub open spec fn transition(self, attributes: Map<Seq<char>, Seq<u8>>) -> (
        PoolView,
        Result<(), TransitionErrorView>,
    ) {
        if !attributes.contains_key("reserve0"@) {
            (self, Err(TransitionErrorView::MissingAttribute("reserve0"@)))
        } else if !attributes.contains_key("reserve1"@) {
            (self, Err(TransitionErrorView::MissingAttribute("reserve1"@)))
        } else {
            (
                PoolView {
                    reserve0: be_value(attributes["reserve0"@]),
                    reserve1: be_value(attributes["reserve1"@]),
                    balance0: attribute_or(attributes, "balance0"@, self.balance0),
                    balance1: attribute_or(attributes, "balance1"@, self.balance1),
                    liquidity: attribute_or(attributes, "liquidity"@, self.liquidity),
                    total_supply: indexed_supply(),
                    k_last: self.k_last,
                },
                Ok(()),
            )
        }
    }
}

} // verus!
