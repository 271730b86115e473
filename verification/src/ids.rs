//! Fresh identifiers.
use vstd::prelude::*;

verus! {

/// uuid's `Uuid::new_v4`, as a number: a random uuid. Of the value only its version and
/// variant bits are claimed (version 4, RFC 4122 variant), which `new_v4` sets on the
/// random bits; the rest is what the random source decides.
#[verifier::external_body]
pub(crate) fn new_uuid() -> (u: u128)
    ensures
        u & 0x0000_0000_0000_F000_C000_0000_0000_0000 == 0x0000_0000_0000_4000_8000_0000_0000_0000,
{
    uuid::Uuid::new_v4().as_u128()
}

} // verus!
