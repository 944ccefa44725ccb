//! Exact helpers for fixed-point arithmetic on milli-unit quantities.

use vstd::prelude::*;

verus! {

/// The smaller of two mathematical integers.
pub open spec fn min_int(a: int, b: int) -> int {
    if a < b {
        a
    } else {
        b
    }
}

/// The larger of two mathematical integers.
pub open spec fn max_int(a: int, b: int) -> int {
    if a < b {
        b
    } else {
        a
    }
}

/// `v` forced into `[lo, hi]`.
pub open spec fn clamp_int(v: int, lo: int, hi: int) -> int {
    if v < lo {
        lo
    } else if v > hi {
        hi
    } else {
        v
    }
}

/// `x * num / den` with the intermediate product taken exactly, saturating
/// at `u64::MAX`.
pub fn mul_div(x: u64, num: u64, den: u64) -> (r: u64)
    requires
        den > 0,
    ensures
        r == min_int(u64::MAX as int, (x as int) * (num as int) / (den as int)),
{
    proof {
        assert((x as int) * (num as int) <= (u64::MAX as int) * (u64::MAX as int))
            by (nonlinear_arith)
            requires
                x <= u64::MAX,
                num <= u64::MAX,
        ;
    }
    let prod: u128 = (x as u128) * (num as u128);
    let q: u128 = prod / (den as u128);
    if q > u64::MAX as u128 {
        u64::MAX
    } else {
        q as u64
    }
}

/// `v` forced into `[lo, hi]`, computed.
pub fn clamp_u64(v: u64, lo: u64, hi: u64) -> (r: u64)
    requires
        lo <= hi,
    ensures
        r == clamp_int(v as int, lo as int, hi as int),
{
    if v < lo {
        lo
    } else if v > hi {
        hi
    } else {
        v
    }
}

/// A signed shift applied to an unsigned quantity and forced into `[lo, hi]`.
pub fn shift_clamp(v: u64, delta: i64, lo: u64, hi: u64) -> (r: u64)
    requires
        lo <= hi,
        v <= i64::MAX,
    ensures
        r == clamp_int(v + delta, lo as int, hi as int),
{
    let shifted: i128 = v as i128 + delta as i128;
    if shifted < lo as i128 {
        lo
    } else if shifted > hi as i128 {
        hi
    } else {
        shifted as u64
    }
}

} // verus!
