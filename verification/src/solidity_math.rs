use vstd::prelude::*;

use crate::u256::{lemma_u256_bound, u256_bound, U256};

verus! {

/// Whether `root` is the square root of `value` rounded down.
pub open spec fn is_sqrt(root: nat, value: nat) -> bool {
    root * root <= value < (root + 1) * (root + 1)
}

/// The square root rounded down.
pub open spec fn isqrt(value: nat) -> nat {
    choose|root: nat| is_sqrt(root, value)
}

/// The root of `isqrt` is the square root rounded down.
pub proof fn lemma_isqrt(value: nat)
    ensures
        is_sqrt(isqrt(value), value),
{
    lemma_sqrt_exists(value);
}

proof fn lemma_small_root(root: nat, value: nat)
    requires
        value <= 3,
        root == if value == 0 { 0nat } else { 1nat },
    ensures
        is_sqrt(root, value),
{
    assert(root * root == root && (root + 1) * (root + 1) == 3 * root + 1) by (nonlinear_arith)
        requires
            root == 0 || root == 1,
    ;
}

proof fn lemma_sqrt_exists(value: nat)
    ensures
        exists|root: nat| is_sqrt(root, value),
    decreases value,
{
    if value == 0 {
        lemma_small_root(0, 0);
    } else {
        let below = (value - 1) as nat;
        lemma_sqrt_exists(below);
        let root = choose|root: nat| is_sqrt(root, below);
        if (root + 1) * (root + 1) <= value {
            assert((root + 1) * (root + 1) < (root + 2) * (root + 2)) by (nonlinear_arith);
            assert(is_sqrt(root + 1, value));
        } else {
            assert(is_sqrt(root, value));
        }
    }
}

/// There is only one square root rounded down.
pub proof fn lemma_sqrt_unique(root: nat, value: nat)
    requires
        is_sqrt(root, value),
    ensures
        root == isqrt(value),
{
    lemma_isqrt(value);
    let other = isqrt(value);
    assert(root == other) by (nonlinear_arith)
        requires
            root * root <= value,
            value < (root + 1) * (root + 1),
            other * other <= value,
            value < (other + 1) * (other + 1),
    ;
}

/// A greater number has no smaller square root.
pub proof fn lemma_isqrt_ordered(a: nat, b: nat)
    requires
        a <= b,
    ensures
        isqrt(a) <= isqrt(b),
{
    lemma_isqrt(a);
    lemma_isqrt(b);
    let (root_a, root_b) = (isqrt(a), isqrt(b));
    assert(root_a <= root_b) by (nonlinear_arith)
        requires
            root_a * root_a <= a,
            a <= b,
            b < (root_b + 1) * (root_b + 1),
    ;
}

/// The square root of a 256-bit integer fits in 128 bits.
pub proof fn lemma_isqrt_bound(value: nat)
    requires
        value < u256_bound(),
    ensures
        isqrt(value) <= u128::MAX,
{
    lemma_isqrt(value);
    let root = isqrt(value);
    assert(root < 0x1_0000000000000000_0000000000000000) by (nonlinear_arith)
        requires
            root * root
                < 0x1_0000000000000000_0000000000000000_0000000000000000_0000000000000000nat,
    ;
}

/// The mean of a guess and of what it must be multiplied by does not fall below the root.
proof fn lemma_newton_step(value: nat, guess: nat, root: nat)
    requires
        guess >= 1,
        root * root <= value,
    ensures
        (value / guess + guess) / 2 >= root,
{
    let share = value / guess;
    assert(value < (share + 1) * guess) by (nonlinear_arith)
        requires
            share == value / guess,
            guess >= 1,
    ;
    if share + guess < 2 * root {
        assert(false) by (nonlinear_arith)
            requires
                share + guess + 1 <= 2 * root,
                value < (share + 1) * guess,
                root * root <= value,
                guess >= 1,
        {
            assert((share + 1) * guess <= (2 * root - guess) * guess);
            assert((2 * root - guess) * guess == root * root - (root - guess) * (root - guess));
            assert((root - guess) * (root - guess) >= 0);
        }
    }
}

fn half(value: U256) -> (r: U256)
    ensures
        r@ == value@ / 2,
{
    value.checked_div(U256::from_u64(2)).unwrap()
}

/// The square root of a 256-bit integer, rounded down, by Newton's iteration.
pub fn sqrt_u256(value: U256) -> (r: U256)
    ensures
        r@ == isqrt(value@),
        is_sqrt(r@, value@),
        r@ * r@ <= value@ < (r@ + 1) * (r@ + 1),
{
    let ghost y: nat = value@;
    proof {
        lemma_u256_bound(value);
        lemma_isqrt(y);
    }
    if !U256::from_u64(3).less_than(&value) {
        let root = if value.is_zero() {
            U256::zero()
        } else {
            U256::from_u64(1)
        };
        proof {
            lemma_small_root(root@, y);
            lemma_sqrt_unique(root@, y);
        }
        return root;
    }
    let ghost root: nat = isqrt(y);
    let mut z = value;
    let mut x = half(value).checked_add(U256::from_u64(1)).unwrap();
    proof {
        lemma_newton_step(y, 1, root);
        assert(y / 1 == y);
        assert(root >= 2) by (nonlinear_arith)
            requires
                y > 3,
                y < (root + 1) * (root + 1),
        ;
    }
    while x.less_than(&z)
        invariant
            y == value@,
            3 < y < u256_bound(),
            is_sqrt(root, y),
            root >= 2,
            root <= x@ <= y / 2 + 1,
            root <= z@ <= y,
            (z@ == y && x@ == y / 2 + 1) || x@ == (y / z@ + z@) / 2,
        decreases z@,
    {
        z = x;
        proof {
            lemma_newton_step(y, z@, root);
            let share = y / z@;
            assert(share <= y / 2) by (nonlinear_arith)
                requires
                    share == y / z@,
                    z@ >= 2,
            ;
        }
        let sum = value.checked_div(x).unwrap().checked_add(x).unwrap();
        x = half(sum);
    }
    proof {
        let (share, guess) = (y / z@, z@);
        assert(guess * guess <= y) by (nonlinear_arith)
            requires
                share == y / guess,
                share >= guess,
                guess >= 1,
        ;
        assert(y < (guess + 1) * (guess + 1)) by (nonlinear_arith)
            requires
                y < (root + 1) * (root + 1),
                root <= guess,
        ;
        lemma_sqrt_unique(guess, y);
    }
    z
}

} // verus!
