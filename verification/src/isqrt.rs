//! Integer square root, used to normalize the summed face normals.

use vstd::prelude::*;

verus! {

/// Whether `m` is the floor of the square root of `v`.
pub open spec fn is_sqrt_floor(v: int, m: int) -> bool {
    &&& 0 <= m
    &&& m * m <= v
    &&& v < (m + 1) * (m + 1)
}

/// The floor of the square root of a nonnegative integer.
pub closed spec fn sqrt_floor(v: int) -> int {
    choose|m: int| is_sqrt_floor(v, m)
}

/// The floor square root exists for every nonnegative integer.
pub proof fn lemma_sqrt_floor_exists(v: int)
    requires
        0 <= v,
    ensures
        is_sqrt_floor(v, sqrt_floor(v)),
    decreases v,
{
    if v == 0 {
        assert(is_sqrt_floor(0, 0));
    } else {
        lemma_sqrt_floor_exists(v - 1);
        let m0 = sqrt_floor(v - 1);
        if (m0 + 1) * (m0 + 1) <= v {
            assert((m0 + 1) * (m0 + 1) < (m0 + 2) * (m0 + 2)) by (nonlinear_arith)
                requires
                    m0 >= 0,
            ;
            assert(is_sqrt_floor(v, m0 + 1));
        } else {
            assert(is_sqrt_floor(v, m0));
        }
    }
    assert(exists|m: int| is_sqrt_floor(v, m));
}

/// The floor square root is unique.
pub proof fn lemma_sqrt_floor_unique(v: int, m: int)
    requires
        0 <= v,
        is_sqrt_floor(v, m),
    ensures
        m == sqrt_floor(v),
{
    lemma_sqrt_floor_exists(v);
    let m0 = sqrt_floor(v);
    if m < m0 {
        assert((m + 1) * (m + 1) <= m0 * m0) by (nonlinear_arith)
            requires
                0 <= m,
                m < m0,
        ;
    } else if m > m0 {
        assert((m0 + 1) * (m0 + 1) <= m * m) by (nonlinear_arith)
            requires
                0 <= m0,
                m0 < m,
        ;
    }
}

/// Squares are monotone, so a square root bracket pins the root's order.
pub proof fn lemma_sqrt_floor_at_least(v: int, b: int)
    requires
        0 <= b,
        b * b <= v,
    ensures
        sqrt_floor(v) >= b,
{
    lemma_sqrt_floor_exists(v);
    let m = sqrt_floor(v);
    if m < b {
        assert((m + 1) * (m + 1) <= b * b) by (nonlinear_arith)
            requires
                0 <= m,
                m < b,
        ;
    }
}

/// The floor of the square root of `v`, by binary search.
pub fn isqrt(v: u128) -> (r: u64)
    ensures
        is_sqrt_floor(v as int, r as int),
        r == sqrt_floor(v as int),
{
    let mut lo: u64 = 0;
    let mut hi: u64 = u64::MAX;
    proof {
        assert((hi as int + 1) * (hi as int + 1) == 0x100000000000000000000000000000000int)
            by (nonlinear_arith)
            requires
                hi == u64::MAX,
        ;
    }
    while lo < hi
        invariant
            lo <= hi,
            (lo as int) * (lo as int) <= v as int,
            (v as int) < (hi as int + 1) * (hi as int + 1),
        decreases hi - lo,
    {
        let mid = lo + (hi - lo) / 2 + 1;
        proof {
            assert((mid as int) * (mid as int) < 0x100000000000000000000000000000000int)
                by (nonlinear_arith)
                requires
                    mid <= 0xffffffffffffffffu64,
            ;
        }
        if (mid as u128) * (mid as u128) <= v {
            lo = mid;
        } else {
            hi = mid - 1;
        }
    }
    proof {
        lemma_sqrt_floor_unique(v as int, lo as int);
    }
    lo
}

} // verus!
