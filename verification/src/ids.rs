//! Fresh random identifiers.

use vstd::prelude::*;

verus! {

/// Whether `id` carries the marks of a random (version 4) UUID: the version
/// digit is 4 and the variant bits are `10`.
pub open spec fn is_random_uuid(id: u128) -> bool {
    id & 0x0000_0000_0000_F000_C000_0000_0000_0000 == 0x0000_0000_0000_4000_8000_0000_0000_0000
}

/// `Uuid::new_v4`, read as a 128-bit number with `Uuid::as_u128`.
///
/// Claimed of it: the identifier carries the marks of a version 4 UUID. The
/// rest of it is random.
#[verifier::external_body]
pub(crate) fn new_uuid() -> (id: u128)
    ensures
        is_random_uuid(id),
{
    uuid::Uuid::new_v4().as_u128()
}

} // verus!
