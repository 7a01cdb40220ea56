//! Fresh random UUIDs for logged-in players.
use vstd::prelude::*;

verus! {

/// Whether `u` carries the version (4, random) and variant (RFC 4122) bits
/// of a randomly generated UUID.
pub open spec fn is_random_uuid(u: u128) -> bool {
    u & 0xF000_C000_0000_0000_0000u128 == 0x4000_8000_0000_0000_0000u128
}

/// `uuid::Uuid::new_v4` followed by `Uuid::as_u128`: a random UUID as its
/// 128-bit big-endian value. Claims only that the version nibble is 4 and the
/// variant bits are `10`, as `new_v4` sets them over random bits; which
/// value comes back is left open.
#[verifier::external_body]
pub(crate) fn new_random_uuid() -> (u: u128)
    ensures
        is_random_uuid(u),
{
    uuid::Uuid::new_v4().as_u128()
}

} // verus!
