use vstd::arithmetic::power::pow;
use vstd::prelude::*;

use crate::big_uint::{is_shortest, BigUint};
use crate::errors::SimulationErrorView;
use crate::safe_math::{fitting, quotient};
use crate::solidity_math::{isqrt, lemma_isqrt, lemma_sqrt_unique};
use crate::token::before;
use crate::u256::{be_value, lemma_pow_256_32, limbs_value, U256};

verus! {

/// Whether 256 bits hold a number.
pub open spec fn fits_256(value: nat) -> bool {
    value < 0x1_0000000000000000_0000000000000000_0000000000000000_0000000000000000nat
}

/// Whether 112 bits hold a number.
pub open spec fn fits_112(value: nat) -> bool {
    value < 0x1_0000_0000_0000_0000_0000_0000_0000nat
}

/// Whether `share` is the greatest number that `divisor` goes into `dividend` times.
pub open spec fn is_share(share: nat, dividend: nat, divisor: nat) -> bool {
    share * divisor <= dividend < (share + 1) * divisor
}

/// Whether `root` is the greatest number whose square does not exceed `value`.
pub open spec fn is_root(root: nat, value: nat) -> bool {
    root * root <= value < (root + 1) * (root + 1)
}

/// The fatal error with the given message.
pub open spec fn fatal(message: Seq<char>) -> SimulationErrorView {
    SimulationErrorView::FatalError(message)
}

/// The fatal error of a result that 256 bits do not hold.
pub open spec fn out_of_range() -> SimulationErrorView {
    fatal("U256 arithmetic overflow"@)
}

/// There is only one greatest number of times that a divisor goes into a dividend.
pub proof fn lemma_share(share: nat, dividend: nat, divisor: nat)
    requires
        is_share(share, dividend, divisor),
    ensures
        divisor > 0,
        share == dividend / divisor,
{
    assert(divisor > 0) by (nonlinear_arith)
        requires
            share * divisor <= dividend,
            dividend < (share + 1) * divisor,
    ;
    let other = dividend / divisor;
    assert(other * divisor <= dividend < (other + 1) * divisor) by (nonlinear_arith)
        requires
            other == dividend / divisor,
            divisor > 0,
    ;
    assert(share == other) by (nonlinear_arith)
        requires
            share * divisor <= dividend,
            dividend < (share + 1) * divisor,
            other * divisor <= dividend,
            dividend < (other + 1) * divisor,
            divisor > 0,
    ;
}

/// A quotient is the greatest number of times that the divisor goes into the dividend.
pub proof fn lemma_is_share(dividend: nat, divisor: nat)
    requires
        divisor > 0,
    ensures
        is_share(dividend / divisor, dividend, divisor),
{
    let share = dividend / divisor;
    assert(share * divisor <= dividend < (share + 1) * divisor) by (nonlinear_arith)
        requires
            share == dividend / divisor,
            divisor > 0,
    ;
}

/// There is only one greatest number whose square does not exceed a value.
pub proof fn lemma_root(root: nat, value: nat)
    requires
        is_root(root, value),
    ensures
        root == isqrt(value),
{
    lemma_sqrt_unique(root, value);
}

/// A checked result is the integer itself, whatever it is, and is refused exactly where 256 bits
/// do not hold it, or where it is negative.
pub proof fn checked_result_is_exact(value: int)
    ensures
        0 <= value && fits_256(value as nat) ==> (fitting(value) matches Ok(result) && result
            == value),
        value < 0 || !fits_256(value as nat) ==> fitting(value) == Err::<nat, SimulationErrorView>(
            out_of_range(),
        ),
{
}

/// A checked quotient is the greatest number of times that the divisor goes into the dividend, and
/// is refused exactly where the divisor is zero.
pub proof fn checked_quotient_is_exact(dividend: nat, divisor: nat)
    ensures
        divisor > 0 ==> (quotient(dividend, divisor) matches Ok(share) && is_share(
            share,
            dividend,
            divisor,
        )),
        divisor == 0 ==> quotient(dividend, divisor) == Err::<nat, SimulationErrorView>(
            fatal("Division by zero"@),
        ),
{
    if divisor > 0 {
        lemma_is_share(dividend, divisor);
    }
}

/// The square root of a number is the greatest number whose square does not exceed it, however
/// large the number is.
pub proof fn square_root_is_full(value: nat)
    ensures
        isqrt(value) * isqrt(value) <= value < (isqrt(value) + 1) * (isqrt(value) + 1),
{
    lemma_isqrt(value);
}

/// An integer is the sum of its limbs, each weighed by a power of two to the 64.
pub proof fn limbs_add_up(value: U256)
    ensures
        value@ == value.limbs@[0] + 0x1_0000000000000000 * value.limbs@[1]
            + 0x1_0000000000000000_0000000000000000 * value.limbs@[2]
            + 0x1_0000000000000000_0000000000000000_0000000000000000 * value.limbs@[3],
        fits_256(value@),
{
    reveal(limbs_value);
}

/// No bytes spell zero, and a byte at the end weighs one while those before it weigh 256 times as
/// much as they did.
pub proof fn last_byte_weighs_one(bytes: Seq<u8>, byte: u8)
    ensures
        be_value(Seq::<u8>::empty()) == 0,
        be_value(bytes.push(byte)) == 256 * be_value(bytes) + byte,
{
    assert(bytes.push(byte).drop_last() =~= bytes);
}

/// The lowest `len` bytes of a number, most significant byte first.
pub open spec fn big_endian(value: nat, len: nat) -> Seq<u8>
    decreases len,
{
    if len == 0 {
        Seq::empty()
    } else {
        big_endian(value / 256, (len - 1) as nat).push((value % 256) as u8)
    }
}

/// Bytes that a number is written out in spell that number, as long as they are enough to hold it.
pub proof fn written_number_reads_back(value: nat, len: nat)
    requires
        value < pow(256, len),
    ensures
        be_value(big_endian(value, len)) == value,
        big_endian(value, len).len() == len,
    decreases len,
{
    reveal(pow);
    if len > 0 {
        let shorter = (len - 1) as nat;
        assert(value / 256 < pow(256, shorter)) by (nonlinear_arith)
            requires
                value < 256 * pow(256, shorter),
        ;
        written_number_reads_back(value / 256, shorter);
        last_byte_weighs_one(big_endian(value / 256, shorter), (value % 256) as u8);
    }
}

/// Every number of 256 bits can be written out in 32 bytes.
pub proof fn written_u256_reads_back(value: nat)
    requires
        fits_256(value),
    ensures
        be_value(big_endian(value, 32)) == value,
        big_endian(value, 32).len() == 32,
{
    lemma_pow_256_32();
    written_number_reads_back(value, 32);
}

/// A number of any size is the one that its bytes spell, and is well formed exactly where no
/// leading byte can go: where there is one byte, or the first of several is not zero.
pub proof fn number_is_spelled(number: BigUint)
    ensures
        number@ == be_value(number.bytes@),
        number.well_formed() <==> is_shortest(number.bytes@),
        is_shortest(number.bytes@) <==> number.bytes@.len() > 0 && (number.bytes@.len() > 1
            ==> number.bytes@[0] != 0),
{
}

/// The first byte in which two strings differ decides which comes before the other.
pub proof fn first_difference_decides(
    common: Seq<u8>,
    a: u8,
    b: u8,
    rest_a: Seq<u8>,
    rest_b: Seq<u8>,
)
    requires
        a != b,
    ensures
        before(common + seq![a] + rest_a, common + seq![b] + rest_b) <==> a < b,
    decreases common.len(),
{
    let whole_a = common + seq![a] + rest_a;
    let whole_b = common + seq![b] + rest_b;
    if common.len() > 0 {
        let shorter = common.drop_first();
        assert(whole_a.drop_first() =~= shorter + seq![a] + rest_a);
        assert(whole_b.drop_first() =~= shorter + seq![b] + rest_b);
        first_difference_decides(shorter, a, b, rest_a, rest_b);
    }
}

/// A string comes before every longer one that starts with it, and not before itself; no string
/// comes before one that it starts with.
pub proof fn shorter_comes_first(common: Seq<u8>, rest: Seq<u8>)
    ensures
        before(common, common + rest) <==> rest.len() > 0,
        !before(common + rest, common),
    decreases common.len(),
{
    if common.len() > 0 {
        assert((common + rest).drop_first() =~= common.drop_first() + rest);
        shorter_comes_first(common.drop_first(), rest);
    }
}

} // verus!
