//! Randomness at the library's edge.
//!
//! All entropy enters through [`random_u64`]; every range restriction on a
//! draw is computed and proved here, so callers get draws with verified
//! bounds while nothing at all is assumed about the distribution.

use vstd::prelude::*;

verus! {

/// Relies on rand::random: one machine word of entropy from the thread-local
/// generator. Nothing is promised of the value.
#[verifier::external_body]
pub(crate) fn random_u64() -> u64 {
    rand::random::<u64>()
}

/// A uniform-style draw strictly below `n`.
pub(crate) fn draw_below(n: u64) -> (r: u64)
    requires
        n > 0,
    ensures
        r < n,
{
    random_u64() % n
}

/// A draw from the half-open range `[lo, hi)`.
pub(crate) fn draw_range(lo: u64, hi: u64) -> (r: u64)
    requires
        lo < hi,
    ensures
        lo <= r < hi,
{
    lo + draw_below(hi - lo)
}

/// A draw from the closed range `[lo, hi]`.
pub(crate) fn draw_range_inclusive(lo: u64, hi: u64) -> (r: u64)
    requires
        lo <= hi,
        hi - lo < u64::MAX,
    ensures
        lo <= r <= hi,
{
    lo + draw_below(hi - lo + 1)
}

/// A signed perturbation drawn from `[-bound, bound)`.
pub(crate) fn draw_signed(bound: u64) -> (r: i64)
    requires
        0 < bound <= i64::MAX,
    ensures
        -(bound as int) <= r < bound as int,
{
    let raw = draw_below(2 * bound);
    if raw >= bound {
        (raw - bound) as i64
    } else {
        -((bound - raw) as i64)
    }
}

} // verus!
