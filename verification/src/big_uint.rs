use vstd::prelude::*;

use crate::u256::{be_value, lemma_be_value_bound, u256_bound, U256};

verus! {

/// An unsigned integer of any size: the bytes that spell it, most significant byte first, without
/// leading zeros. Zero is one byte of zero.
#[derive(Clone, Debug)]
pub struct BigUint {
    pub bytes: Vec<u8>,
}

impl View for BigUint {
    type V = nat;

    open spec fn view(&self) -> nat {
        be_value(self.bytes@)
    }
}

/// Whether bytes hold no leading zero that a number can go without.
pub open spec fn is_shortest(bytes: Seq<u8>) -> bool {
    bytes.len() == 1 || (bytes.len() > 1 && bytes[0] != 0)
}

impl BigUint {
    /// Whether the bytes are the shortest that spell the number.
    pub open spec fn well_formed(self) -> bool {
        is_shortest(self.bytes@)
    }

    /// `num_bigint::BigUint::from_bytes_be`, the number that bytes spell, most significant byte
    /// first, held by the bytes that its `to_bytes_be` gives: the shortest that spell it.
    #[verifier::external_body]
    pub(crate) fn from_bytes_be(bytes: &[u8]) -> (r: BigUint)
        ensures
            r.well_formed(),
            r@ == be_value(bytes@),
    {
        BigUint { bytes: num_bigint::BigUint::from_bytes_be(bytes).to_bytes_be() }
    }

    /// `num_bigint::ToBigUint::to_biguint` on an `i32`: the number, or `None` if it is negative.
    #[verifier::external_body]
    pub(crate) fn from_i32(value: i32) -> (r: Option<BigUint>)
        ensures
            r is Some <==> value >= 0,
            r matches Some(number) ==> number.well_formed() && number@ == value,
    {
        num_bigint::ToBigUint::to_biguint(&value).map(
            |number| BigUint { bytes: number.to_bytes_be() },
        )
    }
}

/// A number below two to the power of 256 has no more than 32 bytes.
proof fn lemma_shortest_length(bytes: Seq<u8>)
    requires
        is_shortest(bytes),
        be_value(bytes) < u256_bound(),
    ensures
        bytes.len() <= 32,
{
    if bytes.len() > 32 {
        lemma_be_value_bound(bytes);
    }
}

/// The number as a 256-bit integer, which must hold it.
pub fn biguint_to_u256(value: &BigUint) -> (r: U256)
    requires
        value.well_formed(),
        value@ < u256_bound(),
    ensures
        r@ == value@,
{
    proof {
        lemma_shortest_length(value.bytes@);
    }
    U256::from_be_slice(value.bytes.as_slice())
}

/// The 256-bit integer as a number of any size.
pub fn u256_to_biguint(value: U256) -> (r: BigUint)
    ensures
        r.well_formed(),
        r@ == value@,
{
    let bytes = value.to_be_bytes();
    BigUint::from_bytes_be(bytes.as_slice())
}

} // verus!
