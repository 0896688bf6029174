//! Trusted access to `num::clamp`.
use vstd::prelude::*;

verus! {

/// Calls `num::clamp` on `u32`; claims its documented result: `min` below
/// `min`, `max` above `max`, the input otherwise. `min <= max` is required,
/// as `num::clamp` asserts it.
#[verifier::external_body]
pub(crate) fn clamp_u32(input: u32, min: u32, max: u32) -> (r: u32)
    requires
        min <= max,
    ensures
        r == if input < min {
            min
        } else if input > max {
            max
        } else {
            input
        },
{
    num::clamp(input, min, max)
}

/// Calls `num::clamp` on `u128`; claims its documented result: `min` below
/// `min`, `max` above `max`, the input otherwise. `min <= max` is required,
/// as `num::clamp` asserts it.
#[verifier::external_body]
pub(crate) fn clamp_u128(input: u128, min: u128, max: u128) -> (r: u128)
    requires
        min <= max,
    ensures
        r == if input < min {
            min
        } else if input > max {
            max
        } else {
            input
        },
{
    num::clamp(input, min, max)
}

} // verus!
