//! Checks on account addresses.

use vstd::prelude::*;

verus! {

/// The length of an address, in characters.
pub const ADDRESS_LENGTH: usize = 56;

/// The characters that may occur in an address: ASCII letters and digits.
pub open spec fn is_address_char(c: char) -> bool {
    ||| '0' <= c <= '9'
    ||| 'A' <= c <= 'Z'
    ||| 'a' <= c <= 'z'
}

/// An address is 56 characters long, starts with `G` and holds only ASCII
/// letters and digits.
pub open spec fn is_address(address: Seq<char>) -> bool {
    &&& address.len() == ADDRESS_LENGTH
    &&& address[0] == 'G'
    &&& forall|i: int| 0 <= i < address.len() ==> is_address_char(#[trigger] address[i])
}

/// Whether `c` may occur in an address.
pub fn is_valid_base32_char(c: char) -> (valid: bool)
    ensures
        valid == is_address_char(c),
{
    ('0' <= c && c <= '9') || ('A' <= c && c <= 'Z') || ('a' <= c && c <= 'z')
}

/// Whether `address` is a well-formed account address.
pub fn validate_address(address: &str) -> (valid: bool)
    ensures
        valid == is_address(address@),
{
    let n = address.unicode_len();
    if n != ADDRESS_LENGTH {
        return false;
    }
    if address.get_char(0) != 'G' {
        return false;
    }
    let mut i: usize = 0;
    while i < n
        invariant
            n == address@.len(),
            i <= n,
            forall|j: int| 0 <= j < i ==> is_address_char(#[trigger] address@[j]),
        decreases n - i,
    {
        if !is_valid_base32_char(address.get_char(i)) {
            return false;
        }
        i += 1;
    }
    true
}

} // verus!
