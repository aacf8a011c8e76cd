use vstd::prelude::*;

verus! {

/// An account address: twenty bytes.
#[derive(Clone, Copy, Debug)]
pub struct Address {
    pub bytes: [u8; 20],
}

impl View for Address {
    type V = Seq<u8>;

    open spec fn view(&self) -> Seq<u8> {
        self.bytes@
    }
}

/// The value of a hexadecimal digit of either case.
pub open spec fn hex_value(c: char) -> Option<u8> {
    if '0' <= c <= '9' {
        Some((c as int - '0' as int) as u8)
    } else if 'a' <= c <= 'f' {
        Some((c as int - 'a' as int + 10) as u8)
    } else if 'A' <= c <= 'F' {
        Some((c as int - 'A' as int + 10) as u8)
    } else {
        None
    }
}

/// A string without the prefix `0x` or `0X`.
pub open spec fn without_prefix(s: Seq<char>) -> Seq<char> {
    if s.len() >= 2 && s[0] == '0' && (s[1] == 'x' || s[1] == 'X') {
        s.skip(2)
    } else {
        s
    }
}

/// Whether a string is forty hexadecimal digits, with or without a prefix.
pub open spec fn is_address(s: Seq<char>) -> bool {
    let digits = without_prefix(s);
    digits.len() == 40 && forall|i: int|
        0 <= i < 40 ==> hex_value(#[trigger] digits[i]) is Some
}

/// The bytes that forty hexadecimal digits spell, two digits to a byte.
pub open spec fn address_bytes(s: Seq<char>) -> Seq<u8> {
    let digits = without_prefix(s);
    Seq::new(
        20,
        |i: int| (16 * hex_value(digits[2 * i])->0 + hex_value(digits[2 * i + 1])->0) as u8,
    )
}

impl Address {
    /// `alloy::primitives::Address::from_str`: the twenty bytes that forty hexadecimal digits of
    /// either case spell, after a prefix `0x` or `0X` if there is one, and `None`, for the outside
    /// function's error, on any other string.
    #[verifier::external_body]
    pub(crate) fn from_str(s: &str) -> (r: Option<Address>)
        ensures
            r is Some <==> is_address(s@),
            r matches Some(address) ==> address@ == address_bytes(s@),
    {
        s.parse::<alloy::primitives::Address>().ok().map(
            |address| Address { bytes: address.into_array() },
        )
    }
}

} // verus!
