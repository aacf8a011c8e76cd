use vstd::arithmetic::power::{lemma_pow0, lemma_pow1, lemma_pow_adds, lemma_pow_increases, pow};
use vstd::prelude::*;

verus! {

/// Two to the power of 256: every [`U256`] is below it.
pub open spec fn u256_bound() -> nat {
    0x1_0000000000000000_0000000000000000_0000000000000000_0000000000000000nat
}

/// The value of four 64-bit limbs, least significant first.
#[verifier::opaque]
pub open spec fn limbs_value(limbs: Seq<u64>) -> nat {
    (limbs[0] + 0x1_0000000000000000 * limbs[1] + 0x1_0000000000000000_0000000000000000 * limbs[2]
        + 0x1_0000000000000000_0000000000000000_0000000000000000 * limbs[3]) as nat
}

/// The number that a string of bytes spells, most significant byte first.
pub open spec fn be_value(bytes: Seq<u8>) -> nat
    decreases bytes.len(),
{
    if bytes.len() == 0 {
        0
    } else {
        be_value(bytes.drop_last()) * 256 + bytes.last() as nat
    }
}

/// An unsigned 256-bit integer: four 64-bit limbs, least significant first.
#[derive(Clone, Copy, Debug)]
pub struct U256 {
    pub limbs: [u64; 4],
}

impl View for U256 {
    type V = nat;

    open spec fn view(&self) -> nat {
        limbs_value(self.limbs@)
    }
}

impl PartialEq for U256 {
    fn eq(&self, other: &U256) -> (r: bool) {
        proof {
            reveal(limbs_value);
        }
        self.limbs[0] == other.limbs[0] && self.limbs[1] == other.limbs[1] && self.limbs[2]
            == other.limbs[2] && self.limbs[3] == other.limbs[3]
    }
}

impl vstd::std_specs::cmp::PartialEqSpecImpl for U256 {
    open spec fn obeys_eq_spec() -> bool {
        true
    }

    open spec fn eq_spec(&self, other: &U256) -> bool {
        self@ == other@
    }
}

impl Eq for U256 {

}

impl U256 {
    /// The integer with the given limbs, least significant first.
    pub fn from_limbs(limbs: [u64; 4]) -> (r: U256)
        ensures
            r@ == limbs_value(limbs@),
            r.limbs == limbs,
    {
        U256 { limbs }
    }

    /// Zero.
    pub fn zero() -> (r: U256)
        ensures
            r@ == 0,
    {
        proof {
            reveal(limbs_value);
        }
        U256 { limbs: [0, 0, 0, 0] }
    }

    /// The 64-bit integer `value`, widened.
    pub fn from_u64(value: u64) -> (r: U256)
        ensures
            r@ == value,
    {
        proof {
            reveal(limbs_value);
        }
        U256 { limbs: [value, 0, 0, 0] }
    }

    /// The 128-bit integer `value`, widened.
    pub fn from_u128(value: u128) -> (r: U256)
        ensures
            r@ == value,
    {
        proof {
            reveal(limbs_value);
        }
        let low: u64 = (value % 0x1_0000000000000000u128) as u64;
        let high: u64 = (value / 0x1_0000000000000000u128) as u64;
        U256 { limbs: [low, high, 0, 0] }
    }

    /// Whether the integer is zero.
    pub fn is_zero(&self) -> (r: bool)
        ensures
            r == (self@ == 0),
    {
        proof {
            reveal(limbs_value);
        }
        self.limbs[0] == 0 && self.limbs[1] == 0 && self.limbs[2] == 0 && self.limbs[3] == 0
    }

    /// Whether the integer is below `other`.
    pub fn less_than(&self, other: &U256) -> (r: bool)
        ensures
            r == (self@ < other@),
    {
        proof {
            reveal(limbs_value);
        }
        if self.limbs[3] != other.limbs[3] {
            self.limbs[3] < other.limbs[3]
        } else if self.limbs[2] != other.limbs[2] {
            self.limbs[2] < other.limbs[2]
        } else if self.limbs[1] != other.limbs[1] {
            self.limbs[1] < other.limbs[1]
        } else {
            self.limbs[0] < other.limbs[0]
        }
    }

    /// `alloy::primitives::U256::checked_add`: the sum, or `None` if it does not fit in 256 bits.
    #[verifier::external_body]
    pub(crate) fn checked_add(self, rhs: U256) -> (r: Option<U256>)
        ensures
            r is Some <==> self@ + rhs@ < u256_bound(),
            r matches Some(sum) ==> sum@ == self@ + rhs@,
    {
        alloy::primitives::U256::from_limbs(self.limbs)
            .checked_add(alloy::primitives::U256::from_limbs(rhs.limbs))
            .map(|sum| U256 { limbs: sum.into_limbs() })
    }

    /// `alloy::primitives::U256::checked_sub`: the difference, or `None` if it is negative.
    #[verifier::external_body]
    pub(crate) fn checked_sub(self, rhs: U256) -> (r: Option<U256>)
        ensures
            r is Some <==> rhs@ <= self@,
            r matches Some(difference) ==> difference@ == self@ - rhs@,
    {
        alloy::primitives::U256::from_limbs(self.limbs)
            .checked_sub(alloy::primitives::U256::from_limbs(rhs.limbs))
            .map(|difference| U256 { limbs: difference.into_limbs() })
    }

    /// `alloy::primitives::U256::checked_mul`: the product, or `None` if it does not fit in 256
    /// bits.
    #[verifier::external_body]
    pub(crate) fn checked_mul(self, rhs: U256) -> (r: Option<U256>)
        ensures
            r is Some <==> self@ * rhs@ < u256_bound(),
            r matches Some(product) ==> product@ == self@ * rhs@,
    {
        alloy::primitives::U256::from_limbs(self.limbs)
            .checked_mul(alloy::primitives::U256::from_limbs(rhs.limbs))
            .map(|product| U256 { limbs: product.into_limbs() })
    }

    /// `alloy::primitives::U256::checked_div`: the quotient rounded down, or `None` if the divisor
    /// is zero.
    #[verifier::external_body]
    pub(crate) fn checked_div(self, rhs: U256) -> (r: Option<U256>)
        ensures
            r is Some <==> rhs@ != 0,
            r matches Some(quotient) ==> quotient@ == self@ / rhs@,
    {
        alloy::primitives::U256::from_limbs(self.limbs)
            .checked_div(alloy::primitives::U256::from_limbs(rhs.limbs))
            .map(|quotient| U256 { limbs: quotient.into_limbs() })
    }

    /// `alloy::primitives::U256::from_be_slice`: the number that at most 32 bytes spell, most
    /// significant byte first. The outside function panics on more bytes than that, which is why
    /// they are left out.
    #[verifier::external_body]
    pub(crate) fn from_be_slice(bytes: &[u8]) -> (r: U256)
        requires
            bytes@.len() <= 32,
        ensures
            r@ == be_value(bytes@),
    {
        U256 { limbs: alloy::primitives::U256::from_be_slice(bytes).into_limbs() }
    }

    /// `alloy::primitives::U256::to_be_bytes`: the 32 bytes that spell the number, most
    /// significant byte first.
    #[verifier::external_body]
    pub(crate) fn to_be_bytes(&self) -> (r: [u8; 32])
        ensures
            be_value(r@) == self@,
    {
        alloy::primitives::U256::from_limbs(self.limbs).to_be_bytes::<32>()
    }
}

/// Every 256-bit integer is below two to the power of 256.
pub proof fn lemma_u256_bound(value: U256)
    ensures
        value@ < u256_bound(),
{
    reveal(limbs_value);
}

/// Bytes that start with a non-zero byte spell no less than that byte's weight.
pub proof fn lemma_be_value_bound(bytes: Seq<u8>)
    requires
        bytes.len() > 0,
        bytes[0] != 0,
    ensures
        bytes.len() > 32 ==> be_value(bytes) >= u256_bound(),
        be_value(bytes) >= pow(256, (bytes.len() - 1) as nat),
    decreases bytes.len(),
{
    let rest = bytes.drop_last();
    if bytes.len() == 1 {
        assert(be_value(rest) == 0);
        lemma_pow0(256);
    } else {
        lemma_be_value_bound(rest);
        let exponent = (rest.len() - 1) as nat;
        assert(pow(256, exponent + 1) == 256 * pow(256, exponent)) by {
            reveal(pow);
        }
    }
    if bytes.len() > 32 {
        lemma_pow_increases(256, 32, (bytes.len() - 1) as nat);
        lemma_pow_256_32();
    }
}

/// 256 to the power of 32 is two to the power of 256.
pub proof fn lemma_pow_256_32()
    ensures
        pow(256, 32) == u256_bound(),
{
    lemma_pow1(256);
    lemma_pow_adds(256, 1, 1);
    lemma_pow_adds(256, 2, 2);
    lemma_pow_adds(256, 4, 4);
    lemma_pow_adds(256, 8, 8);
    lemma_pow_adds(256, 16, 16);
    let (p2, p4, p8, p16, p32) = (
        pow(256, 2),
        pow(256, 4),
        pow(256, 8),
        pow(256, 16),
        pow(256, 32),
    );
    assert(p4 == 0x1_0000_0000) by (nonlinear_arith)
        requires
            p2 == 65536,
            p4 == p2 * p2,
    ;
    assert(p8 == 0x1_0000000000000000) by (nonlinear_arith)
        requires
            p4 == 0x1_0000_0000,
            p8 == p4 * p4,
    ;
    assert(p16 == 0x1_0000000000000000_0000000000000000) by (nonlinear_arith)
        requires
            p8 == 0x1_0000000000000000,
            p16 == p8 * p8,
    ;
    assert(p32 == 0x1_0000000000000000_0000000000000000_0000000000000000_0000000000000000)
        by (nonlinear_arith)
        requires
            p16 == 0x1_0000000000000000_0000000000000000,
            p32 == p16 * p16,
    ;
}

} // verus!
