//! Integer square roots.
//!
//! The quaternion renormalization and the angle-of-attack computation both
//! need square roots.  `isqrt` computes the exact floor of the square root
//! of a `u128` by bisection; `sqrt_floor` is the same value as a spec-level
//! function, so that other spec models can mention it.

use vstd::prelude::*;

verus! {

/// `r` is the floor of the square root of `n`.
pub open spec fn is_sqrt(n: int, r: int) -> bool {
    0 <= r && r * r <= n && n < (r + 1) * (r + 1)
}

/// The floor of the square root of a nonnegative integer, as a spec value.
pub open spec fn sqrt_floor(n: int) -> int {
    choose|r: int| is_sqrt(n, r)
}

/// Squares grow with their (nonnegative) argument, so two floors of the same
/// square root agree.
pub proof fn lemma_sqrt_unique(n: int, r1: int, r2: int)
    by (nonlinear_arith)
    requires
        is_sqrt(n, r1),
        is_sqrt(n, r2),
    ensures
        r1 == r2,
{
}

/// Every nonnegative integer has a floored square root.
pub proof fn lemma_sqrt_exists(n: int) -> (r: int)
    requires
        n >= 0,
    ensures
        is_sqrt(n, r),
    decreases n,
{
    if n == 0 {
        assert(is_sqrt(0, 0)) by (nonlinear_arith);
        0
    } else {
        let p = lemma_sqrt_exists(n - 1);
        if (p + 1) * (p + 1) <= n {
            assert(n < (p + 2) * (p + 2)) by (nonlinear_arith)
                requires
                    p >= 0,
                    n - 1 < (p + 1) * (p + 1),
            ;
            assert(is_sqrt(n, p + 1));
            p + 1
        } else {
            assert(is_sqrt(n, p));
            p
        }
    }
}

/// `sqrt_floor` deserves its name.
pub proof fn lemma_sqrt_floor(n: int)
    requires
        n >= 0,
    ensures
        is_sqrt(n, sqrt_floor(n)),
{
    let r = lemma_sqrt_exists(n);
    assert(is_sqrt(n, r));
}

/// The floor of the square root, by bisection.
pub fn isqrt(n: u128) -> (r: u128)
    ensures
        r as int == sqrt_floor(n as int),
        is_sqrt(n as int, r as int),
{
    let mut lo: u128 = 0;
    let mut hi: u128 = 0x1_0000_0000_0000_0000;
    proof {
        assert((hi as int) * (hi as int) > n as int) by (nonlinear_arith)
            requires
                hi as int == 0x1_0000_0000_0000_0000,
                n as int <= u128::MAX as int,
        ;
    }
    while lo + 1 < hi
        invariant
            lo < hi,
            hi <= 0x1_0000_0000_0000_0000,
            (lo as int) * (lo as int) <= n as int,
            (n as int) < (hi as int) * (hi as int),
        decreases hi - lo,
    {
        let mid: u128 = lo + (hi - lo) / 2;
        proof {
            assert((mid as int) * (mid as int) <= u128::MAX as int) by (nonlinear_arith)
                requires
                    mid as int <= 0xffff_ffff_ffff_ffff,
            ;
        }
        let sq: u128 = mid * mid;
        if sq <= n {
            lo = mid;
        } else {
            hi = mid;
        }
    }
    proof {
        assert(is_sqrt(n as int, lo as int));
        lemma_sqrt_floor(n as int);
        lemma_sqrt_unique(n as int, lo as int, sqrt_floor(n as int));
    }
    lo
}

} // verus!
