//! Integer square roots.
use vstd::prelude::*;

verus! {

/// The largest natural number whose square is at most `n`.
pub open spec fn floor_sqrt(n: nat) -> nat
    decreases n,
{
    if n == 0 {
        0
    } else {
        let r = floor_sqrt((n - 1) as nat);
        if (r + 1) * (r + 1) <= n {
            r + 1
        } else {
            r
        }
    }
}

/// `floor_sqrt(n)` squared is at most `n`, and its successor squared exceeds `n`.
pub proof fn lemma_floor_sqrt_bounds(n: nat)
    ensures
        floor_sqrt(n) * floor_sqrt(n) <= n,
        n < (floor_sqrt(n) + 1) * (floor_sqrt(n) + 1),
    decreases n,
{
    if n > 0 {
        lemma_floor_sqrt_bounds((n - 1) as nat);
        let r = floor_sqrt((n - 1) as nat);
        if (r + 1) * (r + 1) <= n {
            assert(floor_sqrt(n) == r + 1);
            assert(floor_sqrt(n) * floor_sqrt(n) <= n);
            assert(n < (r + 2) * (r + 2)) by (nonlinear_arith)
                requires
                    n - 1 < (r + 1) * (r + 1),
            ;
        } else {
            assert(floor_sqrt(n) == r);
            assert(r * r <= n);
        }
    } else {
        assert(floor_sqrt(0) == 0);
        assert(0nat < 1nat * 1nat);
    }
}

/// Any `r` with `r * r <= n < (r + 1) * (r + 1)` is `floor_sqrt(n)`.
pub proof fn lemma_floor_sqrt_unique(n: nat, r: nat)
    requires
        r * r <= n,
        n < (r + 1) * (r + 1),
    ensures
        r == floor_sqrt(n),
{
    lemma_floor_sqrt_bounds(n);
    let s = floor_sqrt(n);
    if r < s {
        assert((r + 1) * (r + 1) <= s * s) by (nonlinear_arith)
            requires
                r + 1 <= s,
        ;
    } else if s < r {
        assert((s + 1) * (s + 1) <= r * r) by (nonlinear_arith)
            requires
                s + 1 <= r,
        ;
    }
}

/// `floor_sqrt` is monotone.
pub proof fn lemma_floor_sqrt_monotone(a: nat, b: nat)
    requires
        a <= b,
    ensures
        floor_sqrt(a) <= floor_sqrt(b),
{
    lemma_floor_sqrt_bounds(a);
    lemma_floor_sqrt_bounds(b);
    let (x, y) = (floor_sqrt(a), floor_sqrt(b));
    if y < x {
        assert((y + 1) * (y + 1) <= x * x) by (nonlinear_arith)
            requires
                y + 1 <= x,
        ;
    }
}

/// The square root of a perfect square.
pub proof fn lemma_floor_sqrt_square(r: nat)
    ensures
        floor_sqrt(r * r) == r,
{
    assert(r * r < (r + 1) * (r + 1)) by (nonlinear_arith);
    lemma_floor_sqrt_unique(r * r, r);
}

pub const SQRT_ARG_LIMIT: u128 = 0x1000_0000_0000_0000_0000_0000_0000_0000;

/// Rounded-down square root, by bisection.
pub fn isqrt(n: u128) -> (r: u64)
    requires
        n < SQRT_ARG_LIMIT,
    ensures
        r as nat == floor_sqrt(n as nat),
{
    let mut lo: u128 = 0;
    let mut hi: u128 = 0x4000_0000_0000_0001;
    assert(n < hi * hi) by (nonlinear_arith)
        requires
            n < SQRT_ARG_LIMIT,
            hi == 0x4000_0000_0000_0001u128,
    ;
    while lo + 1 < hi
        invariant
            lo < hi <= 0x4000_0000_0000_0001,
            lo * lo <= n,
            n < hi * hi,
        decreases hi - lo,
    {
        let mid: u128 = lo + (hi - lo) / 2;
        assert(mid * mid <= 0x4000_0000_0000_0001 * 0x4000_0000_0000_0001) by (nonlinear_arith)
            requires
                mid < 0x4000_0000_0000_0001,
        ;
        if mid * mid <= n {
            lo = mid;
        } else {
            hi = mid;
        }
    }
    assert(hi == lo + 1);
    proof {
        lemma_floor_sqrt_unique(n as nat, lo as nat);
    }
    lo as u64
}

} // verus!
