//! Shared integer arithmetic: floor-division bounds and the integer
//! square root, the only non-algebraic operation the collision engine
//! needs (for the length of an offset vector).

use vstd::prelude::*;

verus! {

/// Division on non-negative integers: floor bounds of the quotient.
pub proof fn lemma_div_bounds(x: int, d: int)
    requires
        0 <= x,
        0 < d,
    ensures
        0 <= x / d,
        d * (x / d) <= x,
        x < d * (x / d) + d,
{
    vstd::arithmetic::div_mod::lemma_fundamental_div_mod(x, d);
    vstd::arithmetic::div_mod::lemma_mod_division_less_than_divisor(x, d);
    vstd::arithmetic::div_mod::lemma_div_pos_is_pos(x, d);
}

/// The floor of the square root, as a mathematical function.
pub open spec fn isqrt_spec(n: int) -> int
    decreases n,
{
    if n <= 0 {
        0
    } else {
        let r = isqrt_spec(n - 1);
        if (r + 1) * (r + 1) <= n {
            r + 1
        } else {
            r
        }
    }
}

/// `isqrt_spec(n)` is the unique non-negative `r` with
/// `r * r <= n < (r + 1) * (r + 1)`.
pub proof fn lemma_isqrt_spec_bounds(n: int)
    requires
        n >= 0,
    ensures
        0 <= isqrt_spec(n),
        isqrt_spec(n) * isqrt_spec(n) <= n,
        n < (isqrt_spec(n) + 1) * (isqrt_spec(n) + 1),
    decreases n,
{
    if n > 0 {
        lemma_isqrt_spec_bounds(n - 1);
        let r = isqrt_spec(n - 1);
        if (r + 1) * (r + 1) <= n {
            assert(n < (r + 2) * (r + 2)) by (nonlinear_arith)
                requires
                    n - 1 < (r + 1) * (r + 1),
                    0 <= r,
            ;
        }
    }
}

/// `isqrt(n)` is the floor of the square root of `n`: the unique `r`
/// with `r * r <= n < (r + 1) * (r + 1)`.
///
/// Binary search over the answer; every candidate square fits in
/// `u128` because candidates stay at or below `2^63`.
pub fn isqrt(n: u128) -> (r: u128)
    requires
        n < 0x40000000000000000000000000000000u128,
    ensures
        r * r <= n < (r + 1) * (r + 1),
        r == isqrt_spec(n as int),
{
    let mut lo: u128 = 0;
    let mut hi: u128 = 0x8000000000000000u128;
    while lo + 1 < hi
        invariant
            lo < hi <= 0x8000000000000000u128,
            lo * lo <= n,
            n < hi * hi,
        decreases hi - lo,
    {
        let mid = lo + (hi - lo) / 2;
        proof {
            assert(mid * mid < 0x40000000000000000000000000000000) by (nonlinear_arith)
                requires
                    mid < 0x8000000000000000u128,
            ;
        }
        if mid * mid <= n {
            lo = mid;
        } else {
            hi = mid;
        }
    }
    proof {
        lemma_isqrt_spec_bounds(n as int);
        let s = isqrt_spec(n as int);
        assert(lo == s) by (nonlinear_arith)
            requires
                0 <= lo,
                0 <= s,
                lo * lo <= n,
                n < (lo + 1) * (lo + 1),
                s * s <= n,
                n < (s + 1) * (s + 1),
        ;
    }
    lo
}

} // verus!
