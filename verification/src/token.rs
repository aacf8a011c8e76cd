use vstd::prelude::*;

verus! {

/// A string of bytes, such as an address.
pub type Bytes = Vec<u8>;

/// A token that a pair trades.
#[derive(Clone, Debug)]
pub struct Token {
    /// Address of the token's contract.
    pub address: Bytes,
    /// Number of decimals in the token's unit.
    pub decimals: u32,
}

/// Whether `a` comes before `b` in the order of a dictionary.
pub open spec fn before(a: Seq<u8>, b: Seq<u8>) -> bool
    decreases a.len(),
{
    if b.len() == 0 {
        false
    } else if a.len() == 0 {
        true
    } else if a[0] != b[0] {
        a[0] < b[0]
    } else {
        before(a.drop_first(), b.drop_first())
    }
}

/// Whether `a` comes before `b` in the order of a dictionary.
pub fn bytes_before(a: &Bytes, b: &Bytes) -> (r: bool)
    ensures
        r == before(a@, b@),
{
    let mut i: usize = 0;
    proof {
        assert(a@.skip(0) =~= a@);
        assert(b@.skip(0) =~= b@);
    }
    while i < a.len() && i < b.len()
        invariant
            i <= a@.len(),
            i <= b@.len(),
            before(a@, b@) == before(a@.skip(i as int), b@.skip(i as int)),
        decreases a@.len() - i,
    {
        if a[i] != b[i] {
            return a[i] < b[i];
        }
        proof {
            assert(a@.skip(i as int).drop_first() =~= a@.skip(i + 1));
            assert(b@.skip(i as int).drop_first() =~= b@.skip(i + 1));
        }
        i = i + 1;
    }
    i < b.len()
}

} // verus!
