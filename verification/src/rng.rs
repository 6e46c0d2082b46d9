//! The game's single source of randomness: integer draws from half-open
//! ranges. Everything downstream of a draw is verified for every value the
//! draw can return.

use vstd::prelude::*;

verus! {

/// Relies on `rand::Rng::gen_range` on the thread-local generator: it
/// returns a value of the half-open range `[lo, hi)` and panics only when
/// the range is empty, which the precondition rules out. Nothing more is
/// assumed of the draw; in particular, two calls with equal bounds may
/// differ.
#[verifier::external_body]
pub(crate) fn rand_range(lo: i64, hi: i64) -> (r: i64)
    requires
        lo < hi,
    ensures
        lo <= r < hi,
{
    rand::Rng::gen_range(&mut rand::thread_rng(), lo..hi)
}

} // verus!
