//! The one source of chance the engine draws on.

use rand::Rng;
use vstd::prelude::*;

verus! {

/// Draws an integer from the half-open range `low..high` by calling
/// `rand::Rng::gen_range` on the generator that `rand::thread_rng` hands out.
///
/// Trusted, not proved: the result lies within the range. Which value comes
/// back is left open, so callers are verified for every one of them. The
/// outside function panics on an empty range, which the precondition rules
/// out.
#[verifier::external_body]
pub(crate) fn random_in(low: u16, high: u16) -> (r: u16)
    requires
        low < high,
    ensures
        low <= r < high,
{
    rand::thread_rng().gen_range(low..high)
}

} // verus!
