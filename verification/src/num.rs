//! Saturating 64-bit arithmetic for quantities that only ever need their
//! sign and order preserved (countdown timers, scores, lives). Saturation
//! keeps every state transition total without a precondition.

use vstd::prelude::*;

verus! {

/// The value `v` clamped into the range of `i64`.
pub open spec fn clamp_i64(v: int) -> int {
    if v > i64::MAX as int {
        i64::MAX as int
    } else if v < i64::MIN as int {
        i64::MIN as int
    } else {
        v
    }
}

/// `a + b`, clamped at the ends of the `i64` range.
pub fn sat_add(a: i64, b: i64) -> (r: i64)
    ensures
        r as int == clamp_i64(a + b),
{
    let s: i128 = a as i128 + b as i128;
    if s > i64::MAX as i128 {
        i64::MAX
    } else if s < i64::MIN as i128 {
        i64::MIN
    } else {
        s as i64
    }
}

/// `a - d` for an elapsed time `d`, clamped at the ends of the `i64` range.
pub fn sat_sub_elapsed(a: i64, d: u64) -> (r: i64)
    ensures
        r as int == clamp_i64(a - d),
{
    let s: i128 = a as i128 - d as i128;
    if s > i64::MAX as i128 {
        i64::MAX
    } else if s < i64::MIN as i128 {
        i64::MIN
    } else {
        s as i64
    }
}

} // verus!
