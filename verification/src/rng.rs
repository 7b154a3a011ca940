//! The library's one source of randomness.

use vstd::prelude::*;

verus! {

/// Relies on rand's `Rng::gen_range` on a `u64` inclusive range: a draw from
/// the thread-local generator, uniform over `lo..=hi`; it panics only on an
/// empty range. Nothing more can be promised of a random value than its range.
#[verifier::external_body]
pub(crate) fn rand_in_range(lo: u64, hi: u64) -> (r: u64)
    requires
        lo <= hi,
    ensures
        lo <= r <= hi,
{
    rand::Rng::gen_range(&mut rand::thread_rng(), lo..=hi)
}

} // verus!
