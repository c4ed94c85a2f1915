//! The one place the library touches the random number generator.

use vstd::prelude::*;

verus! {

/// Relies on rand::random_range over `0..bound`: it returns a value sampled
/// from that half-open range, and panics only when the range is empty.
#[verifier::external_body]
pub(crate) fn gen_range_below(bound: u32) -> (r: u32)
    requires
        bound >= 1,
    ensures
        r < bound,
{
    rand::random_range(0..bound)
}

} // verus!
