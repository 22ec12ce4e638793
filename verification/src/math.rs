//! Exact integer arithmetic the simulation core is built on: magnitudes,
//! truncating division, clamping, and floor square / cube roots.

use vstd::prelude::*;

verus! {

/// Magnitude of an integer.
pub open spec fn iabs(x: int) -> int {
    if x < 0 {
        -x
    } else {
        x
    }
}

/// Sign of an integer: -1, 0 or 1.
pub open spec fn isign(x: int) -> int {
    if x < 0 {
        -1
    } else if x > 0 {
        1
    } else {
        0
    }
}

/// Division truncating toward zero, for a positive divisor.
pub open spec fn div_trunc(a: int, b: int) -> int {
    isign(a) * (iabs(a) / b)
}

/// `x` clamped into the interval [-limit, limit].
pub open spec fn clamp_to(x: int, limit: int) -> int {
    if x < -limit {
        -limit
    } else if x > limit {
        limit
    } else {
        x
    }
}

/// Floor of the square root of a natural number.
pub open spec fn sqrt_floor(n: nat) -> nat
    decreases n,
{
    if n == 0 {
        0
    } else {
        let r = sqrt_floor((n - 1) as nat);
        if (r + 1) * (r + 1) <= n {
            r + 1
        } else {
            r
        }
    }
}

/// Floor of the cube root of a natural number.
pub open spec fn cbrt_floor(n: nat) -> nat
    decreases n,
{
    if n == 0 {
        0
    } else {
        let r = cbrt_floor((n - 1) as nat);
        if (r + 1) * (r + 1) * (r + 1) <= n {
            r + 1
        } else {
            r
        }
    }
}

/// `sqrt_floor(n)` is the unique `r` with `r^2 <= n < (r+1)^2`.
pub proof fn lemma_sqrt_floor_bounds(n: nat)
    ensures
        (sqrt_floor(n) as int) * (sqrt_floor(n) as int) <= n as int,
        (n as int) < ((sqrt_floor(n) as int) + 1) * ((sqrt_floor(n) as int) + 1),
    decreases n,
{
    if n == 0 {
        assert(sqrt_floor(n) == 0);
    } else {
        lemma_sqrt_floor_bounds((n - 1) as nat);
        let r = sqrt_floor((n - 1) as nat) as int;
        if (r + 1) * (r + 1) <= n {
            assert(sqrt_floor(n) == r + 1);
            assert((sqrt_floor(n) as int) * (sqrt_floor(n) as int) == (r + 1) * (r + 1));
            assert(n - 1 < (r + 1) * (r + 1));
            assert(n == (r + 1) * (r + 1));
            assert((r + 1) * (r + 1) < (r + 2) * (r + 2)) by (nonlinear_arith)
                requires
                    0 <= r,
            ;
        } else {
            assert(sqrt_floor(n) == r);
        }
    }
}

/// Any `x` whose square is at most `n` is at most `sqrt_floor(n)`.
pub proof fn lemma_le_sqrt_floor(x: nat, n: nat)
    requires
        (x as int) * (x as int) <= n as int,
    ensures
        x <= sqrt_floor(n),
{
    lemma_sqrt_floor_bounds(n);
    let r = sqrt_floor(n) as int;
    if x > r {
        assert((r + 1) * (r + 1) <= (x as int) * (x as int)) by (nonlinear_arith)
            requires
                0 <= r && r + 1 <= x as int,
        ;
    }
}

/// A value with the floor-square-root property equals `sqrt_floor`.
pub proof fn lemma_sqrt_floor_unique(n: nat, r: nat)
    requires
        (r as int) * (r as int) <= n as int,
        (n as int) < ((r as int) + 1) * ((r as int) + 1),
    ensures
        r == sqrt_floor(n),
{
    lemma_sqrt_floor_bounds(n);
    lemma_le_sqrt_floor(r, n);
    let s = sqrt_floor(n) as int;
    if s > r {
        assert(((r as int) + 1) * ((r as int) + 1) <= s * s) by (nonlinear_arith)
            requires
                0 <= r as int && (r as int) + 1 <= s,
        ;
    }
}

/// `cbrt_floor(n)` is the unique `r` with `r^3 <= n < (r+1)^3`.
pub proof fn lemma_cbrt_floor_bounds(n: nat)
    ensures
        (cbrt_floor(n) as int) * (cbrt_floor(n) as int) * (cbrt_floor(n) as int) <= n as int,
        (n as int) < ((cbrt_floor(n) as int) + 1) * ((cbrt_floor(n) as int) + 1) * ((cbrt_floor(
            n,
        ) as int) + 1),
    decreases n,
{
    if n == 0 {
        assert(cbrt_floor(n) == 0);
    } else {
        lemma_cbrt_floor_bounds((n - 1) as nat);
        let r = cbrt_floor((n - 1) as nat) as int;
        if (r + 1) * (r + 1) * (r + 1) <= n {
            assert(cbrt_floor(n) == r + 1);
            assert((cbrt_floor(n) as int) * (cbrt_floor(n) as int) * (cbrt_floor(n) as int) == (r
                + 1) * (r + 1) * (r + 1));
            assert(n - 1 < (r + 1) * (r + 1) * (r + 1));
            assert(n == (r + 1) * (r + 1) * (r + 1));
            assert((r + 1) * (r + 1) * (r + 1) < (r + 2) * (r + 2) * (r + 2)) by (nonlinear_arith)
                requires
                    0 <= r,
            ;
        } else {
            assert(cbrt_floor(n) == r);
        }
    }
}

/// A value with the floor-cube-root property equals `cbrt_floor`.
pub proof fn lemma_cbrt_floor_unique(n: nat, r: nat)
    requires
        (r as int) * (r as int) * (r as int) <= n as int,
        (n as int) < ((r as int) + 1) * ((r as int) + 1) * ((r as int) + 1),
    ensures
        r == cbrt_floor(n),
{
    lemma_cbrt_floor_bounds(n);
    let s = cbrt_floor(n) as int;
    let ri = r as int;
    if s > ri {
        assert((ri + 1) * (ri + 1) * (ri + 1) <= s * s * s) by (nonlinear_arith)
            requires
                0 <= ri && ri + 1 <= s,
        ;
    }
    if ri > s {
        assert((s + 1) * (s + 1) * (s + 1) <= ri * ri * ri) by (nonlinear_arith)
            requires
                0 <= s && s + 1 <= ri,
        ;
    }
}

/// Floor square root of `n`, by bisection.
pub fn isqrt_u128(n: u128) -> (r: u128)
    requires
        n < 0x4000_0000_0000_0000_0000_0000_0000_0000u128,
    ensures
        r == sqrt_floor(n as nat),
{
    let mut lo: u128 = 0;
    let mut hi: u128 = 0x8000_0000_0000_0000;
    assert((0x8000_0000_0000_0000 as int) * (0x8000_0000_0000_0000 as int)
        == 0x4000_0000_0000_0000_0000_0000_0000_0000);
    while lo + 1 < hi
        invariant
            lo < hi,
            hi <= 0x8000_0000_0000_0000u128,
            lo * lo <= n,
            (n as int) < (hi as int) * (hi as int),
        decreases hi - lo,
    {
        let mid: u128 = lo + (hi - lo) / 2;
        proof {
            assert(lo < mid < hi);
            assert((mid as int) * (mid as int) < (0x8000_0000_0000_0000 as int) * (
            0x8000_0000_0000_0000 as int)) by (nonlinear_arith)
                requires
                    0 <= (mid as int) < 0x8000_0000_0000_0000,
            ;
        }
        if mid * mid <= n {
            lo = mid;
        } else {
            hi = mid;
        }
    }
    proof {
        lemma_sqrt_floor_unique(n as nat, lo as nat);
    }
    lo
}

/// Floor cube root of `n`, by bisection.
pub fn icbrt_u64(n: u64) -> (r: u64)
    requires
        n < 0x8000_0000_0000_0000u64,
    ensures
        r == cbrt_floor(n as nat),
{
    let mut lo: u64 = 0;
    let mut hi: u64 = 0x20_0000;
    assert((0x20_0000 as int) * (0x20_0000 as int) * (0x20_0000 as int)
        == 0x8000_0000_0000_0000);
    while lo + 1 < hi
        invariant
            lo < hi,
            hi <= 0x20_0000u64,
            lo * lo * lo <= n,
            (n as int) < (hi as int) * (hi as int) * (hi as int),
        decreases hi - lo,
    {
        let mid: u64 = lo + (hi - lo) / 2;
        proof {
            assert(lo < mid < hi);
            assert((mid as int) * (mid as int) <= (0x20_0000 as int) * (0x20_0000 as int)
                && (mid as int) * (mid as int) * (mid as int) < (0x20_0000 as int) * (
            0x20_0000 as int) * (0x20_0000 as int)) by (nonlinear_arith)
                requires
                    0 <= (mid as int) < 0x20_0000,
            ;
        }
        if mid * mid * mid <= n {
            lo = mid;
        } else {
            hi = mid;
        }
    }
    proof {
        lemma_cbrt_floor_unique(n as nat, lo as nat);
    }
    lo
}

/// Clamp a wide intermediate into the interval [-limit, limit].
pub fn clamp_i128_to_i64(x: i128, limit: i64) -> (r: i64)
    requires
        0 < limit,
    ensures
        r == clamp_to(x as int, limit as int),
{
    if x < -(limit as i128) {
        -limit
    } else if x > limit as i128 {
        limit
    } else {
        x as i64
    }
}

} // verus!
