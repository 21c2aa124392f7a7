//! Debug conveniences: a no-ceremony random number.

use vstd::prelude::*;
use rand::Rng;

verus! {

/// Debug rng so you can just do `rng(0, 100)` or whatever, no effort.
///
/// Relies on rand's `thread_rng` and `Rng::gen_range`: a draw from the
/// half-open range `lo..hi`, which must be non-empty — `gen_range` panics
/// on an empty range.
#[verifier::external_body]
pub fn rng(lo: i64, hi: i64) -> (r: i64)
    requires
        lo < hi,
    ensures
        lo <= r < hi,
{
    rand::thread_rng().gen_range(lo..hi)
}

} // verus!
