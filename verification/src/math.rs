//! Integer arithmetic helpers: the floor square root used by the pool's
//! invariant accounting, and a few small ordering helpers.

use vstd::prelude::*;

verus! {

/// The floor of the square root of `y`, as a mathematical function:
/// the largest `r` with `r * r <= y`.
pub open spec fn floor_sqrt(y: int) -> int
    decreases y,
{
    if y <= 0 {
        0
    } else {
        let r = floor_sqrt(y - 1);
        if (r + 1) * (r + 1) <= y {
            r + 1
        } else {
            r
        }
    }
}

/// `floor_sqrt(y)` is the unique nonnegative root bounding `y` from below.
pub proof fn lemma_floor_sqrt(y: int)
    requires
        y >= 0,
    ensures
        0 <= floor_sqrt(y),
        floor_sqrt(y) * floor_sqrt(y) <= y,
        y < (floor_sqrt(y) + 1) * (floor_sqrt(y) + 1),
    decreases y,
{
    if y == 0 {
    } else {
        lemma_floor_sqrt(y - 1);
        let r = floor_sqrt(y - 1);
        if (r + 1) * (r + 1) <= y {
            assert((r + 1 + 1) * (r + 1 + 1) > y) by (nonlinear_arith)
                requires
                    r >= 0,
                    (r + 1) * (r + 1) > y - 1,
            ;
        }
    }
}

/// Any `r` with `r * r <= y < (r + 1) * (r + 1)` is `floor_sqrt(y)`.
pub proof fn lemma_floor_sqrt_unique(y: int, r: int)
    requires
        y >= 0,
        r >= 0,
        r * r <= y,
        y < (r + 1) * (r + 1),
    ensures
        r == floor_sqrt(y),
{
    lemma_floor_sqrt(y);
    let f = floor_sqrt(y);
    assert(r == f) by (nonlinear_arith)
        requires
            r >= 0,
            f >= 0,
            r * r <= y,
            y < (r + 1) * (r + 1),
            f * f <= y,
            y < (f + 1) * (f + 1),
    ;
}

/// The smaller of two mathematical integers.
pub open spec fn min_int(a: int, b: int) -> int {
    if a <= b {
        a
    } else {
        b
    }
}

/// Floor square root of a `u128`, by binary search on the root.
pub fn sqrt(y: u128) -> (r: u128)
    ensures
        r == floor_sqrt(y as int),
{
    proof {
        lemma_floor_sqrt(y as int);
    }
    let mut lo: u128 = 0;
    let mut hi: u128 = 0x1_0000_0000_0000_0000;
    assert((0x1_0000_0000_0000_0000 as int) * (0x1_0000_0000_0000_0000 as int)
        > u128::MAX as int) by (nonlinear_arith);
    while lo + 1 < hi
        invariant
            lo < hi <= 0x1_0000_0000_0000_0000,
            (lo as int) * (lo as int) <= y as int,
            (y as int) < (hi as int) * (hi as int),
        decreases hi - lo,
    {
        let mid = lo + (hi - lo) / 2;
        assert((mid as int) * (mid as int) <= u128::MAX as int) by (nonlinear_arith)
            requires
                mid < 0x1_0000_0000_0000_0000u128,
        ;
        if mid * mid <= y {
            lo = mid;
        } else {
            hi = mid;
        }
    }
    proof {
        lemma_floor_sqrt_unique(y as int, lo as int);
    }
    lo
}

} // verus!
