//! The source of random cells.

use vstd::prelude::*;
use rand::Rng;

verus! {

/// `rand::rngs::ThreadRng`, the handle to the generator of the current
/// thread. It is carried from [`thread_generator`] to [`draw_below`] and
/// nothing is known of what it holds.
#[verifier::external_type_specification]
#[verifier::external_body]
pub struct ExThreadRng(rand::rngs::ThreadRng);

/// `rand::thread_rng`: hands out the generator of the current thread, which
/// the first call on a thread seeds from the system. Nothing is claimed of
/// the handle.
#[verifier::external_body]
pub(crate) fn thread_generator() -> (rng: rand::rngs::ThreadRng) {
    rand::thread_rng()
}

/// `rand::Rng::gen_range` on `i32` with the lower bound 0: the number drawn
/// is at least 0 and less than `high`. The call panics unless the range is
/// non-empty, which the precondition asks for. Nothing is claimed of which
/// number of the range comes out.
#[verifier::external_body]
pub(crate) fn draw_below(rng: &mut rand::rngs::ThreadRng, high: i32) -> (n: i32)
    requires
        0 < high,
    ensures
        0 <= n < high,
{
    rng.gen_range(0, high)
}

} // verus!
