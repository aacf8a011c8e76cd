use vstd::arithmetic::div_mod::{lemma_div_by_multiple, lemma_div_is_ordered};
use vstd::prelude::*;

use crate::cpmm::amount_out;
use crate::errors::SimulationErrorView;
use crate::model::{swap_fee_bps, PoolView};
use crate::token::before;

verus! {

/// The product of the reserves.
pub open spec fn product(pool: PoolView) -> nat {
    pool.reserve0 * pool.reserve1
}

/// The pool with its two tokens exchanged.
pub open spec fn mirror(pool: PoolView) -> PoolView {
    PoolView {
        reserve0: pool.reserve1,
        reserve1: pool.reserve0,
        balance0: pool.balance1,
        balance1: pool.balance0,
        ..pool
    }
}

/// What is paid out comes to less than the reserve, and does not outweigh what is paid in.
proof fn lemma_amount_out(amount_in: nat, reserve_sell: nat, reserve_buy: nat, paid: nat)
    requires
        amount_out(amount_in, reserve_sell, reserve_buy, swap_fee_bps()) == Ok::<nat, SimulationErrorView>(paid),
    ensures
        paid < reserve_buy,
        paid * (reserve_sell * 10000 + amount_in * 9970) <= amount_in * 9970 * reserve_buy,
{
    let sold = amount_in * 9970;
    let total = reserve_sell * 10000 + sold;
    assert(paid == sold * reserve_buy / total);
    assert(paid * total <= sold * reserve_buy) by (nonlinear_arith)
        requires
            paid == sold * reserve_buy / total,
            total > 0,
    ;
    assert(paid < reserve_buy) by (nonlinear_arith)
        requires
            paid * total <= sold * reserve_buy,
            sold < total,
            reserve_buy > 0,
    ;
}

proof fn lemma_product(amount_in: nat, reserve_sell: nat, reserve_buy: nat, paid: nat)
    requires
        amount_out(amount_in, reserve_sell, reserve_buy, swap_fee_bps()) == Ok::<nat, SimulationErrorView>(paid),
    ensures
        paid < reserve_buy,
        reserve_sell * reserve_buy <= (reserve_sell + amount_in) * (reserve_buy - paid),
{
    lemma_amount_out(amount_in, reserve_sell, reserve_buy, paid);
    let sold = amount_in * 9970;
    let left = reserve_buy - paid;
    let before_fee = reserve_sell * 10000;
    assert((before_fee + sold) * left == before_fee * reserve_buy + sold * reserve_buy - paid * (
    before_fee + sold)) by (nonlinear_arith)
        requires
            left == reserve_buy - paid,
    ;
    assert(before_fee * reserve_buy == 10000 * (reserve_sell * reserve_buy)) by (nonlinear_arith)
        requires
            before_fee == reserve_sell * 10000,
    ;
    assert((before_fee + sold) * left <= 10000 * ((reserve_sell + amount_in) * left))
        by (nonlinear_arith)
        requires
            before_fee == reserve_sell * 10000,
            sold == amount_in * 9970,
            left >= 0,
    ;
}

/// A swap never shrinks the product of the reserves.
pub proof fn swap_keeps_product(pool: PoolView, amount_in: nat, zero2one: bool)
    requires
        pool.swap(amount_in, zero2one) is Ok,
    ensures
        product(pool) <= product(pool.swap(amount_in, zero2one)->Ok_0.new_state),
{
    let swap = pool.swap(amount_in, zero2one)->Ok_0;
    if zero2one {
        lemma_product(amount_in, pool.reserve0, pool.reserve1, swap.amount);
    } else {
        lemma_product(amount_in, pool.reserve1, pool.reserve0, swap.amount);
        assert(pool.reserve0 * pool.reserve1 == pool.reserve1 * pool.reserve0) by (nonlinear_arith);
        let (sell, buy) = (
            pool.reserve1 + amount_in,
            (pool.reserve0 - swap.amount) as nat,
        );
        assert(sell * buy == buy * sell) by (nonlinear_arith);
    }
}

/// A swap moves the reserves by the amount sold and the amount paid out, which never drains a
/// reserve, and touches nothing else of the pool.
pub proof fn swap_moves_reserves_only(pool: PoolView, amount_in: nat, zero2one: bool)
    requires
        pool.swap(amount_in, zero2one) is Ok,
    ensures
        ({
            let swap = pool.swap(amount_in, zero2one)->Ok_0;
            let after = swap.new_state;
            &&& zero2one ==> after.reserve0 == pool.reserve0 + amount_in && after.reserve1
                == pool.reserve1 - swap.amount && after.reserve1 > 0
            &&& !zero2one ==> after.reserve1 == pool.reserve1 + amount_in && after.reserve0
                == pool.reserve0 - swap.amount && after.reserve0 > 0
            &&& after.balance0 == pool.balance0
            &&& after.balance1 == pool.balance1
            &&& after.liquidity == pool.liquidity
            &&& after.total_supply == pool.total_supply
            &&& after.k_last == pool.k_last
        }),
{
    let swap = pool.swap(amount_in, zero2one)->Ok_0;
    if zero2one {
        lemma_amount_out(amount_in, pool.reserve0, pool.reserve1, swap.amount);
    } else {
        lemma_amount_out(amount_in, pool.reserve1, pool.reserve0, swap.amount);
    }
}

/// Who sells more is paid no less.
pub proof fn swap_is_monotonic(pool: PoolView, less: nat, more: nat, zero2one: bool)
    requires
        less <= more,
        pool.swap(less, zero2one) is Ok,
        pool.swap(more, zero2one) is Ok,
    ensures
        pool.swap(less, zero2one)->Ok_0.amount <= pool.swap(more, zero2one)->Ok_0.amount,
{
    let (sell, buy) = if zero2one {
        (pool.reserve0, pool.reserve1)
    } else {
        (pool.reserve1, pool.reserve0)
    };
    let paid = pool.swap(less, zero2one)->Ok_0.amount;
    lemma_amount_out(less, sell, buy, paid);
    let (sold_less, sold_more) = (less * 9970, more * 9970);
    let (total_less, total_more) = (sell * 10000 + sold_less, sell * 10000 + sold_more);
    let added = (sold_more - sold_less) as nat;
    // What is added to the sum takes less of the payout than it adds to what is shared.
    assert(paid * total_more <= sold_more * buy) by {
        assert(paid * total_more == paid * total_less + paid * added) by (nonlinear_arith)
            requires
                total_more == total_less + added,
        ;
        assert(sold_more * buy == sold_less * buy + added * buy) by (nonlinear_arith)
            requires
                sold_more == sold_less + added,
        ;
        assert(paid * added <= added * buy) by (nonlinear_arith)
            requires
                paid < buy,
        ;
    }
    lemma_div_is_ordered(
        (paid * total_more) as int,
        (sold_more * buy) as int,
        total_more as int,
    );
    lemma_div_by_multiple(paid as int, total_more as int);
}

/// Who sells in two steps is paid no more than who sells all at once.
pub proof fn split_sale_pays_no_more(pool: PoolView, first: nat, second: nat, zero2one: bool)
    requires
        pool.swap(first, zero2one) is Ok,
        pool.swap(first, zero2one)->Ok_0.new_state.swap(second, zero2one) is Ok,
        pool.swap(first + second, zero2one) is Ok,
    ensures
        ({
            let step = pool.swap(first, zero2one)->Ok_0;
            step.amount + step.new_state.swap(second, zero2one)->Ok_0.amount <= pool.swap(
                first + second,
                zero2one,
            )->Ok_0.amount
        }),
{
    let (sell, buy) = if zero2one {
        (pool.reserve0, pool.reserve1)
    } else {
        (pool.reserve1, pool.reserve0)
    };
    let step = pool.swap(first, zero2one)->Ok_0;
    let (p, q) = (step.amount, step.new_state.swap(second, zero2one)->Ok_0.amount);
    lemma_amount_out(first, sell, buy, p);
    let left = (buy - p) as nat;
    lemma_amount_out(second, sell + first, left, q);
    let (x, y) = (first * 9970, second * 9970);
    let base = sell * 10000;
    let total = base + x + y;
    assert(q * total <= y * left) by (nonlinear_arith)
        requires
            q * ((sell + first) * 10000 + y) <= y * left,
            total <= (sell + first) * 10000 + y,
    ;
    assert((p + q) * total <= (x + y) * buy) by {
        assert((p + q) * total == p * (base + x) + p * y + q * total) by (nonlinear_arith)
            requires
                total == base + x + y,
        ;
        assert(y * left == y * buy - p * y) by (nonlinear_arith)
            requires
                left == buy - p,
        ;
        assert((x + y) * buy == x * buy + y * buy) by (nonlinear_arith);
    }
    lemma_div_is_ordered(((p + q) * total) as int, ((x + y) * buy) as int, total as int);
    lemma_div_by_multiple((p + q) as int, total as int);
}

/// Who swaps, and swaps the proceeds back, ends up with no more than at the start.
pub proof fn swap_back_gains_nothing(pool: PoolView, amount_in: nat, zero2one: bool)
    requires
        pool.swap(amount_in, zero2one) is Ok,
        pool.swap(amount_in, zero2one)->Ok_0.new_state.swap(
            pool.swap(amount_in, zero2one)->Ok_0.amount,
            !zero2one,
        ) is Ok,
    ensures
        pool.swap(amount_in, zero2one)->Ok_0.new_state.swap(
            pool.swap(amount_in, zero2one)->Ok_0.amount,
            !zero2one,
        )->Ok_0.amount <= amount_in,
{
    let there = pool.swap(amount_in, zero2one)->Ok_0;
    let back = there.new_state.swap(there.amount, !zero2one)->Ok_0;
    let (sell, buy) = if zero2one {
        (pool.reserve0, pool.reserve1)
    } else {
        (pool.reserve1, pool.reserve0)
    };
    lemma_product(amount_in, sell, buy, there.amount);
    lemma_product(
        there.amount,
        (buy - there.amount) as nat,
        sell + amount_in,
        back.amount,
    );
    let (paid, returned) = (there.amount, back.amount);
    assert(returned <= amount_in) by (nonlinear_arith)
        requires
            sell * buy <= (sell + amount_in) * (buy - paid),
            (buy - paid) * (sell + amount_in) <= buy * (sell + amount_in - returned),
            buy > 0,
    {
        assert((sell + amount_in) * (buy - paid) == (buy - paid) * (sell + amount_in));
        assert(sell * buy <= (sell + amount_in - returned) * buy);
    }
}

/// A pool treats its two tokens alike: with the tokens exchanged, a swap the other way round comes
/// to the same.
pub proof fn swap_is_symmetric(pool: PoolView, amount_in: nat, zero2one: bool)
    ensures
        match (pool.swap(amount_in, zero2one), mirror(pool).swap(amount_in, !zero2one)) {
            (Ok(swap), Ok(mirrored)) => {
                &&& swap.amount == mirrored.amount
                &&& swap.gas == mirrored.gas
                &&& mirror(swap.new_state) == mirrored.new_state
            },
            (Err(error), Err(mirrored)) => error == mirrored,
            _ => false,
        },
{
}

/// The direction of a swap depends on the addresses alone, and turns round with the tokens: of two
/// different addresses exactly one comes before the other.
pub proof fn direction_turns_round(a: Seq<u8>, b: Seq<u8>)
    ensures
        a != b ==> before(a, b) != before(b, a),
        a == b ==> !before(a, b) && !before(b, a),
    decreases a.len(),
{
    if a.len() > 0 && b.len() > 0 && a[0] == b[0] {
        direction_turns_round(a.drop_first(), b.drop_first());
        if a.drop_first() == b.drop_first() {
            assert(a =~= seq![a[0]] + a.drop_first());
            assert(b =~= seq![b[0]] + b.drop_first());
        }
    } else if a.len() == 0 && b.len() == 0 {
        assert(a =~= b);
    }
}

/// The order of addresses is transitive.
pub proof fn addresses_are_ordered(a: Seq<u8>, b: Seq<u8>, c: Seq<u8>)
    requires
        before(a, b),
        before(b, c),
    ensures
        before(a, c),
    decreases a.len(),
{
    if a.len() > 0 && a[0] == b[0] && b[0] == c[0] {
        addresses_are_ordered(a.drop_first(), b.drop_first(), c.drop_first());
    }
}

/// A swap of no more than the soft limit takes no more than nine tenths off the price, which is
/// the quotient of the reserves.
pub proof fn limit_takes_nine_tenths_at_most(pool: PoolView, amount_in: nat, zero2one: bool)
    requires
        pool.swap(amount_in, zero2one) is Ok,
        pool.swap_limits(zero2one) is Ok,
        amount_in <= pool.swap_limits(zero2one)->Ok_0.0,
    ensures
        ({
            let after = pool.swap(amount_in, zero2one)->Ok_0.new_state;
            if zero2one {
                pool.reserve1 * after.reserve0 <= 10 * (after.reserve1 * pool.reserve0)
            } else {
                pool.reserve0 * after.reserve1 <= 10 * (after.reserve0 * pool.reserve1)
            }
        }),
{
    let paid = pool.swap(amount_in, zero2one)->Ok_0.amount;
    let (sell, buy) = if zero2one {
        (pool.reserve0, pool.reserve1)
    } else {
        (pool.reserve1, pool.reserve0)
    };
    lemma_amount_out(amount_in, sell, buy, paid);
    let sold = amount_in * 9970;
    let total = sell * 10000 + sold;
    let left = (buy - paid) as nat;
    // What is left is the part of the reserve that the old reserve of the other token holds.
    assert(buy * (sell * 10000) <= left * total) by (nonlinear_arith)
        requires
            paid * total <= sold * buy,
            total == sell * 10000 + sold,
            left == buy - paid,
    ;
    assert((sell + amount_in) * total <= 100000 * (sell * sell)) by (nonlinear_arith)
        requires
            total == sell * 10000 + sold,
            sold == amount_in * 9970,
            100 * amount_in <= 216 * sell,
    {
        assert(100 * (sell + amount_in) <= 316 * sell);
        assert(100 * total <= 3153520 * sell);
        assert((100 * (sell + amount_in)) * (100 * total) <= (316 * sell) * (3153520 * sell));
    }
    assert(buy * (sell + amount_in) <= 10 * (left * sell)) by (nonlinear_arith)
        requires
            buy * (sell * 10000) <= left * total,
            (sell + amount_in) * total <= 100000 * (sell * sell),
            sell > 0,
            total > 0,
    {
        // Multiply both sides by `total * sell`, which is positive.
        let (x, y) = (buy * (sell + amount_in), 10 * (left * sell));
        assert(x * total == buy * ((sell + amount_in) * total));
        assert(buy * ((sell + amount_in) * total) <= buy * (100000 * (sell * sell)));
        assert(buy * (100000 * (sell * sell)) == 10 * sell * (buy * (sell * 10000)));
        assert(10 * sell * (buy * (sell * 10000)) <= 10 * sell * (left * total));
        assert(10 * sell * (left * total) == y * total);
        assert(x * total <= y * total);
    }
}

} // verus!
