//! Integer square roots.
use vstd::prelude::*;

verus! {

/// `r` is the square root of `n` rounded down.
pub open spec fn is_floor_root(n: int, r: int) -> bool {
    0 <= r && r * r <= n && n < (r + 1) * (r + 1)
}

/// The square root of `n` rounded down.  Meaningful for `n >= 0`.
pub open spec fn floor_root(n: int) -> int {
    choose|r: int| is_floor_root(n, r)
}

/// A number has at most one rounded-down square root.
pub proof fn lemma_floor_root_unique(n: int, r: int, s: int)
    requires
        is_floor_root(n, r),
        is_floor_root(n, s),
    ensures
        r == s,
{
    if r < s {
        assert((r + 1) * (r + 1) <= s * s) by (nonlinear_arith)
            requires
                0 <= r,
                r + 1 <= s,
        ;
    } else if s < r {
        assert((s + 1) * (s + 1) <= r * r) by (nonlinear_arith)
            requires
                0 <= s,
                s + 1 <= r,
        ;
    }
}

/// Whatever satisfies the defining inequalities is the rounded-down root.
pub proof fn lemma_floor_root_is(n: int, r: int)
    requires
        is_floor_root(n, r),
    ensures
        floor_root(n) == r,
{
    lemma_floor_root_unique(n, r, floor_root(n));
}

/// The rounded-down root of a sum of two squares is at least as large as
/// either of the numbers squared.
pub proof fn lemma_floor_root_dominates(x: int, y: int, r: int)
    requires
        is_floor_root(x * x + y * y, r),
    ensures
        -r <= x <= r,
        -r <= y <= r,
{
    assert(y * y >= 0) by (nonlinear_arith);
    assert(x * x >= 0) by (nonlinear_arith);
    if x > r {
        assert(x * x >= (r + 1) * (r + 1)) by (nonlinear_arith)
            requires
                x >= r + 1,
                r >= 0,
        ;
    }
    if x < -r {
        assert(x * x >= (r + 1) * (r + 1)) by (nonlinear_arith)
            requires
                -x >= r + 1,
                r >= 0,
        ;
    }
    if y > r {
        assert(y * y >= (r + 1) * (r + 1)) by (nonlinear_arith)
            requires
                y >= r + 1,
                r >= 0,
        ;
    }
    if y < -r {
        assert(y * y >= (r + 1) * (r + 1)) by (nonlinear_arith)
            requires
                -y >= r + 1,
                r >= 0,
        ;
    }
}

/// Computes the square root of `n` rounded down, by bisection.
pub fn isqrt(n: u128) -> (r: u64)
    ensures
        r == floor_root(n as int),
        is_floor_root(n as int, r as int),
{
    let mut lo: u128 = 0;
    let mut hi: u128 = 0x1_0000_0000_0000_0000;
    assert(hi * hi > n) by (nonlinear_arith)
        requires
            hi == 0x1_0000_0000_0000_0000,
            n <= u128::MAX,
    ;
    while hi - lo > 1
        invariant
            lo < hi <= 0x1_0000_0000_0000_0000,
            lo * lo <= n,
            n < hi * hi,
        decreases hi - lo,
    {
        let mid: u128 = lo + (hi - lo) / 2;
        assert(mid * mid <= 0xffff_ffff_ffff_ffff * 0xffff_ffff_ffff_ffff) by (nonlinear_arith)
            requires
                0 <= mid <= 0xffff_ffff_ffff_ffff,
        ;
        if mid * mid <= n {
            lo = mid;
        } else {
            hi = mid;
        }
    }
    proof {
        assert(hi == lo + 1);
        lemma_floor_root_is(n as int, lo as int);
    }
    lo as u64
}

} // verus!
