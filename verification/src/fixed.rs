//! Fixed-point numbers.
//!
//! Every length, weight, ratio and percentage in this crate is a whole number of
//! millionths: the integer `1_000_000` stands for one unit. Products of two or
//! three such numbers (areas, volumes) are kept exact, as the plain product of the
//! stored integers, in a 128-bit integer.

use vstd::prelude::*;

verus! {

/// Stored steps per unit.
pub const SCALE: i64 = 1_000_000;

/// Largest length or coordinate that the model types accept (100 000 units).
pub const MAX_LENGTH: i64 = 100_000_000_000;

/// Largest coordinate of the lower corner of a valid placed box (twice the largest length).
pub const MAX_COORD: i64 = 200_000_000_000;

/// Largest coordinate of any point of a valid placed box (three times the largest length).
pub const MAX_EXTENT: i64 = 300_000_000_000;

/// Largest weight that the model types accept (1 000 000 units).
pub const MAX_WEIGHT: i64 = 1_000_000_000_000;

/// Largest number of boxes in one container, and of items in one run.
pub const MAX_ITEMS: usize = 100_000;

/// Absolute value of an integer.
pub open spec fn abs(x: int) -> int {
    if x < 0 { -x } else { x }
}

/// The smaller of two integers.
pub open spec fn min(a: int, b: int) -> int {
    if a <= b { a } else { b }
}

/// The larger of two integers.
pub open spec fn max(a: int, b: int) -> int {
    if a >= b { a } else { b }
}

/// `r` is the integer square root of `n`: the largest integer whose square is at most `n`.
pub open spec fn is_int_sqrt(n: int, r: int) -> bool {
    0 <= r && r * r <= n && n < (r + 1) * (r + 1)
}

/// Integer square root of `n` (rounded down). Meaningful for `n >= 0`.
pub open spec fn int_sqrt(n: int) -> int {
    choose|r: int| is_int_sqrt(n, r)
}

/// A number has at most one integer square root.
pub proof fn lemma_int_sqrt_unique(n: int, r1: int, r2: int)
    requires
        is_int_sqrt(n, r1),
        is_int_sqrt(n, r2),
    ensures
        r1 == r2,
{
    if r1 < r2 {
        assert((r1 + 1) * (r1 + 1) <= r2 * r2) by (nonlinear_arith)
            requires
                0 <= r1,
                r1 + 1 <= r2,
        ;
    } else if r2 < r1 {
        assert((r2 + 1) * (r2 + 1) <= r1 * r1) by (nonlinear_arith)
            requires
                0 <= r2,
                r2 + 1 <= r1,
        ;
    }
}

/// Whatever satisfies `is_int_sqrt` is the value of `int_sqrt`.
pub proof fn lemma_int_sqrt_is(n: int, r: int)
    requires
        is_int_sqrt(n, r),
    ensures
        int_sqrt(n) == r,
{
    let c = int_sqrt(n);
    assert(is_int_sqrt(n, c));
    lemma_int_sqrt_unique(n, c, r);
}

/// Integer square root, rounded down.
pub fn isqrt(n: u128) -> (r: u64)
    ensures
        is_int_sqrt(n as int, r as int),
        r as int == int_sqrt(n as int),
{
    let mut lo: u128 = 0;
    let mut hi: u128 = 0x1_0000_0000_0000_0000;
    assert(hi * hi > n) by (nonlinear_arith)
        requires
            hi == 0x1_0000_0000_0000_0000,
            n <= u128::MAX,
    ;
    while hi - lo > 1
        invariant
            lo < hi <= 0x1_0000_0000_0000_0000,
            lo * lo <= n,
            n < hi * hi,
        decreases hi - lo,
    {
        let mid: u128 = lo + (hi - lo) / 2;
        assert(mid * mid <= 0xffff_ffff_ffff_ffff * 0xffff_ffff_ffff_ffff) by (nonlinear_arith)
            requires
                0 <= mid <= 0xffff_ffff_ffff_ffff,
        ;
        if mid * mid <= n {
            lo = mid;
        } else {
            hi = mid;
        }
    }
    proof {
        assert(hi == lo + 1);
        lemma_int_sqrt_is(n as int, lo as int);
    }
    lo as u64
}

/// Distance between two integers.
pub fn abs_diff(a: i64, b: i64) -> (r: u64)
    ensures
        r as int == abs(a as int - b as int),
{
    if a >= b {
        (a as i128 - b as i128) as u64
    } else {
        (b as i128 - a as i128) as u64
    }
}

} // verus!
