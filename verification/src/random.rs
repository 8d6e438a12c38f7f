//! The crate's one tie to the random number generator: fresh particles and
//! user-made gravity sources get uniform-random positions.

use vstd::prelude::*;

verus! {

/// Relies on `fastrand::i32`: a draw from the thread-local generator,
/// uniform over the given half-open range. It panics only on an empty
/// range, which the precondition rules out; nothing more can be promised
/// of a random draw than its bounds.
#[verifier::external_body]
pub(crate) fn random_i32(lo: i32, hi: i32) -> (r: i32)
    requires
        lo < hi,
    ensures
        lo <= r < hi,
{
    fastrand::i32(lo..hi)
}

} // verus!
