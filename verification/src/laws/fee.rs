use vstd::prelude::*;

use crate::errors::SimulationErrorView;
use crate::laws::numbers::{fits_256, is_root, lemma_is_share, lemma_root, out_of_range};
use crate::model::{fee_liquidity, PoolView};

verus! {

/// With the roots of the product of the reserves and of the recorded product, the protocol is due
/// the most tokens that keep `due * (5 * root + root_last)` within
/// `total_supply * (root - root_last)`, and none unless the root has grown. It is refused only
/// where the product of the reserves, or that of the supply and the growth, does not fit.
pub proof fn fee_is_full_share_of_growth(
    total_supply: nat,
    reserve0: nat,
    reserve1: nat,
    k_last: nat,
    root: nat,
    root_last: nat,
)
    requires
        k_last > 0,
        is_root(root, reserve0 * reserve1),
        is_root(root_last, k_last),
    ensures
        match fee_liquidity(total_supply, reserve0, reserve1, Some(k_last)) {
            Ok(due) => {
                &&& fits_256(reserve0 * reserve1)
                &&& root <= root_last ==> due == 0
                &&& root > root_last ==> {
                    let growth = total_supply * (root - root_last) as nat;
                    &&& fits_256(growth)
                    &&& due * (5 * root + root_last) <= growth
                    &&& growth < (due + 1) * (5 * root + root_last)
                }
            },
            Err(error) => {
                &&& error == out_of_range()
                &&& !fits_256(reserve0 * reserve1) || (root > root_last && !fits_256(
                    total_supply * (root - root_last) as nat,
                ))
            },
        },
{
    lemma_root(root, reserve0 * reserve1);
    lemma_root(root_last, k_last);
    if root > root_last {
        lemma_is_share(total_supply * (root - root_last) as nat, 5 * root + root_last);
    }
}

/// Without a recorded product, or with a recorded product of zero, nothing is due.
pub proof fn no_record_no_fee(total_supply: nat, reserve0: nat, reserve1: nat)
    ensures
        fee_liquidity(total_supply, reserve0, reserve1, None) == Ok::<nat, SimulationErrorView>(0),
        fee_liquidity(total_supply, reserve0, reserve1, Some(0)) == Ok::<nat, SimulationErrorView>(
            0,
        ),
{
}

/// What a pool owes follows from its supply and its recorded product, and is nothing where no fee
/// is taken.
pub proof fn fee_follows_record(pool: PoolView, reserve0: nat, reserve1: nat)
    ensures
        pool.fee_due(reserve0, reserve1, true) == fee_liquidity(
            pool.total_supply,
            reserve0,
            reserve1,
            pool.k_last,
        ),
        pool.fee_due(reserve0, reserve1, false) == Ok::<nat, SimulationErrorView>(0),
{
}

/// A fee is due exactly where there is some.
pub proof fn fee_is_due_where_there_is_some(
    pool: PoolView,
    reserve0: nat,
    reserve1: nat,
    fee_on: bool,
)
    ensures
        match pool.fee_due(reserve0, reserve1, fee_on) {
            Ok(due) => pool.fee_is_due(reserve0, reserve1, fee_on) <==> due > 0,
            Err(_) => !pool.fee_is_due(reserve0, reserve1, fee_on),
        },
{
}

/// A mint comes to an end exactly where nothing is due, the fee is refused, or a balance is below
/// its reserve.
pub proof fn mint_ends_where_nothing_is_due(pool: PoolView, fee_on: bool)
    ensures
        pool.mint_ends(fee_on) <==> pool.balance0 < pool.reserve0 || pool.balance1 < pool.reserve1
            || (match pool.fee_due(pool.reserve0, pool.reserve1, fee_on) {
            Ok(due) => due == 0,
            Err(_) => true,
        }),
{
}

/// The fee step says whether there is a receiver. It fails, with the pool as it was, exactly where
/// the fee is refused. Without a receiver the recorded product, if there is one, becomes zero and
/// nothing else changes; with one and nothing due nothing changes; with one and something due the
/// pool is left as a mint leaves it.
pub proof fn fee_step_is_exact(pool: PoolView, reserve0: nat, reserve1: nat, fee_on: bool)
    ensures
        ({
            let (after, result) = pool.mint_fee(reserve0, reserve1, fee_on);
            match pool.fee_due(reserve0, reserve1, fee_on) {
                Err(error) => after == pool && result == Err::<bool, SimulationErrorView>(error),
                Ok(due) => {
                    &&& result == Ok::<bool, SimulationErrorView>(fee_on)
                    &&& !fee_on ==> {
                        &&& after.k_last == (match pool.k_last {
                            Some(_) => Some(0nat),
                            None => None,
                        })
                        &&& after.reserve0 == pool.reserve0
                        &&& after.reserve1 == pool.reserve1
                        &&& after.balance0 == pool.balance0
                        &&& after.balance1 == pool.balance1
                        &&& after.liquidity == pool.liquidity
                        &&& after.total_supply == pool.total_supply
                    }
                    &&& fee_on && due == 0 ==> after == pool
                    &&& fee_on && due > 0 ==> after == pool.mint(true).0
                },
            }
        }),
{
}

} // verus!
