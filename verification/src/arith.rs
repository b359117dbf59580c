use vstd::prelude::*;

verus! {

use vstd::arithmetic::div_mod::{lemma_div_is_ordered, lemma_div_by_multiple};
use vstd::arithmetic::mul::lemma_mul_inequality;

/// `r` is the floor of the square root of `x`.
pub open spec fn is_floor_sqrt(r: int, x: int) -> bool {
    &&& r * r <= x
    &&& x < (r + 1) * (r + 1)
}

/// Floor of the square root, by bisection on the root.
pub fn isqrt_u128(x: u128) -> (r: u64)
    ensures
        is_floor_sqrt(r as int, x as int),
{
    let mut lo: u128 = 0;
    let mut hi: u128 = 0x1_0000_0000_0000_0000;
    proof {
        assert((0x1_0000_0000_0000_0000int) * (0x1_0000_0000_0000_0000int) > u128::MAX as int)
            by (nonlinear_arith);
    }
    while lo + 1 < hi
        invariant
            lo < hi <= 0x1_0000_0000_0000_0000,
            (lo as int) * (lo as int) <= x as int,
            (x as int) < (hi as int) * (hi as int),
        decreases hi - lo,
    {
        let mid: u128 = lo + (hi - lo) / 2;
        proof {
            assert(lo < mid < hi);
            assert((mid as int) * (mid as int) < u128::MAX as int) by (nonlinear_arith)
                requires mid < 0x1_0000_0000_0000_0000int;
        }
        if mid * mid <= x {
            lo = mid;
        } else {
            hi = mid;
        }
    }
    proof {
        assert(hi == lo + 1);
        assert(lo < 0x1_0000_0000_0000_0000);
    }
    lo as u64
}

/// If every one of `n` summands is at most `m`, the mean is at most `m`.
pub proof fn lemma_mean_le_max(sum: int, n: int, m: int)
    requires
        0 < n,
        0 <= sum <= n * m,
        0 <= m,
    ensures
        sum / n <= m,
{
    lemma_div_is_ordered(sum, n * m, n);
    lemma_div_by_multiple(m, n);
    assert(n * m == m * n) by (nonlinear_arith);
}

/// Multiplying both sides of `a <= b` by a nonnegative `c` keeps the order.
pub proof fn lemma_mul_le(a: int, b: int, c: int)
    requires
        a <= b,
        0 <= c,
    ensures
        a * c <= b * c,
{
    lemma_mul_inequality(a, b, c);
}

} // verus!
