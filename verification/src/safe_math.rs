use vstd::prelude::*;

use crate::errors::{outcome, SimulationError, SimulationErrorView};
use crate::u256::{lemma_u256_bound, u256_bound, U256};

verus! {

/// The error for a result that 256 bits do not hold.
pub open spec fn overflow_error() -> SimulationErrorView {
    SimulationErrorView::FatalError("U256 arithmetic overflow"@)
}

/// The error for a division by zero.
pub open spec fn division_by_zero_error() -> SimulationErrorView {
    SimulationErrorView::FatalError("Division by zero"@)
}

/// The integer itself where 256 bits hold it, else the overflow error.
pub open spec fn fitting(value: int) -> Result<nat, SimulationErrorView> {
    if 0 <= value < u256_bound() {
        Ok(value as nat)
    } else {
        Err(overflow_error())
    }
}

/// The quotient rounded down, or the error for a divisor of zero.
pub open spec fn quotient(a: nat, b: nat) -> Result<nat, SimulationErrorView> {
    if b == 0 {
        Err(division_by_zero_error())
    } else {
        Ok(a / b)
    }
}

/// The product divided by `c` and rounded down. The product comes first: where it does not fit,
/// a divisor of zero goes unnoticed.
pub open spec fn product_quotient(a: nat, b: nat, c: nat) -> Result<nat, SimulationErrorView> {
    if a * b < u256_bound() {
        quotient(a * b, c)
    } else {
        Err(overflow_error())
    }
}

fn checked_result(value: Option<U256>) -> (r: Result<U256, SimulationError>)
    ensures
        outcome(r) == (match value {
            Some(value) => Ok::<nat, SimulationErrorView>(value@),
            None => Err(overflow_error()),
        }),
{
    match value {
        Some(value) => Ok(value),
        None => Err(SimulationError::FatalError("U256 arithmetic overflow".to_string())),
    }
}

/// The sum, or the overflow error.
pub fn safe_add_u256(a: U256, b: U256) -> (r: Result<U256, SimulationError>)
    ensures
        outcome(r) == fitting((a@ + b@) as int),
{
    checked_result(a.checked_add(b))
}

/// The difference, or the overflow error where it is negative.
pub fn safe_sub_u256(a: U256, b: U256) -> (r: Result<U256, SimulationError>)
    ensures
        outcome(r) == fitting(a@ - b@),
{
    proof {
        lemma_u256_bound(a);
    }
    checked_result(a.checked_sub(b))
}

/// The product, or the overflow error.
pub fn safe_mul_u256(a: U256, b: U256) -> (r: Result<U256, SimulationError>)
    ensures
        outcome(r) == fitting((a@ * b@) as int),
{
    checked_result(a.checked_mul(b))
}

/// The quotient rounded down, or the error for a divisor of zero.
pub fn safe_div_u256(a: U256, b: U256) -> (r: Result<U256, SimulationError>)
    ensures
        outcome(r) == quotient(a@, b@),
{
    if b.is_zero() {
        return Err(SimulationError::FatalError("Division by zero".to_string()));
    }
    checked_result(a.checked_div(b))
}

} // verus!
