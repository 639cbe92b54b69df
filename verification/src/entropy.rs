//! The crate's only source of randomness: a thin trusted wrapper around the
//! `rand` crate's thread-local generator.

use rand::Rng;
use vstd::prelude::*;

verus! {

/// Relies on `rand::Rng::gen_range` on the thread-local generator: it returns
/// a value uniformly distributed in `[lo, hi)` and panics only when the range
/// is empty, which the precondition rules out.
#[verifier::external_body]
pub(crate) fn random_in_range(lo: i64, hi: i64) -> (r: i64)
    requires
        lo < hi,
    ensures
        lo <= r < hi,
{
    rand::thread_rng().gen_range(lo..hi)
}

/// A uniformly random byte, for color channels.
pub(crate) fn random_byte() -> (r: u8) {
    let v = random_in_range(0, 256);
    v as u8
}

} // verus!
