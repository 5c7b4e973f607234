//! Fixed-point scalar arithmetic: the scale constant, integer square root,
//! floor division, and fixed-point multiplication.

use vstd::prelude::*;
use vstd::arithmetic::div_mod::lemma_fundamental_div_mod;
use vstd::arithmetic::div_mod::lemma_fundamental_div_mod_converse;

verus! {

/// Number of fixed-point units in one world unit: a quantity `q` stands for
/// the real number `q / 65536`.
pub const SCALE: i64 = 65536;

/// `r` is the integer square root of `n`, rounded down.
pub open spec fn is_isqrt(n: int, r: int) -> bool {
    0 <= r && r * r <= n && n < (r + 1) * (r + 1)
}

/// The integer square root of `n`, rounded down (meaningful for `n >= 0`).
pub open spec fn sqrt_floor(n: int) -> int {
    choose|r: int| is_isqrt(n, r)
}

/// Two integer square roots of the same number are equal.
pub proof fn lemma_isqrt_unique(n: int, r1: int, r2: int)
    requires
        is_isqrt(n, r1),
        is_isqrt(n, r2),
    ensures
        r1 == r2,
{
    if r1 < r2 {
        assert((r1 + 1) * (r1 + 1) <= r2 * r2) by (nonlinear_arith)
            requires 0 <= r1 + 1 <= r2;
    }
    if r2 < r1 {
        assert((r2 + 1) * (r2 + 1) <= r1 * r1) by (nonlinear_arith)
            requires 0 <= r2 + 1 <= r1;
    }
}

/// Every nonnegative integer has an integer square root, so `sqrt_floor`
/// denotes it.
pub proof fn lemma_sqrt_floor_exists(n: int)
    requires
        n >= 0,
    ensures
        is_isqrt(n, sqrt_floor(n)),
    decreases n,
{
    if n == 0 {
        assert(is_isqrt(0, 0));
    } else {
        lemma_sqrt_floor_exists(n - 1);
        let r = sqrt_floor(n - 1);
        if n < (r + 1) * (r + 1) {
            assert(is_isqrt(n, r));
        } else {
            assert((r + 2) * (r + 2) > (r + 1) * (r + 1)) by (nonlinear_arith)
                requires r >= 0;
            assert(is_isqrt(n, r + 1));
        }
    }
}

/// If a witness is at hand, `sqrt_floor` equals it.
pub proof fn lemma_sqrt_floor_is(n: int, r: int)
    requires
        is_isqrt(n, r),
    ensures
        sqrt_floor(n) == r,
{
    assert(is_isqrt(n, sqrt_floor(n)));
    lemma_isqrt_unique(n, sqrt_floor(n), r);
}

/// The integer square root is monotone.
pub proof fn lemma_sqrt_floor_monotonic(m: int, n: int)
    requires
        0 <= m <= n,
    ensures
        0 <= sqrt_floor(m) <= sqrt_floor(n),
{
    lemma_sqrt_floor_exists(m);
    lemma_sqrt_floor_exists(n);
    let rm = sqrt_floor(m);
    let rn = sqrt_floor(n);
    if rm > rn {
        assert((rn + 1) * (rn + 1) <= rm * rm) by (nonlinear_arith)
            requires 0 <= rn + 1 <= rm;
    }
}

/// The integer square root of a positive number is positive.
pub proof fn lemma_sqrt_floor_pos(n: int)
    requires
        n >= 1,
    ensures
        sqrt_floor(n) >= 1,
{
    lemma_sqrt_floor_exists(n);
    let r = sqrt_floor(n);
    if r == 0 {
        assert(n < 1);
    }
}

/// Integer square root, rounded down, by bisection over the answer.
pub fn isqrt_u128(n: u128) -> (r: u128)
    ensures
        is_isqrt(n as int, r as int),
        r == sqrt_floor(n as int),
{
    let mut lo: u128 = 0;
    let mut hi: u128 = 0xFFFF_FFFF_FFFF_FFFF;
    proof {
        assert((0xFFFF_FFFF_FFFF_FFFF + 1) * (0xFFFF_FFFF_FFFF_FFFF + 1) > u128::MAX)
            by (nonlinear_arith);
    }
    while lo < hi
        invariant
            lo <= hi <= 0xFFFF_FFFF_FFFF_FFFF,
            lo * lo <= n,
            n < (hi + 1) * (hi + 1),
        decreases hi - lo,
    {
        let mid = lo + (hi - lo + 1) / 2;
        assert(lo < mid <= hi);
        assert(mid * mid <= 0xFFFF_FFFF_FFFF_FFFF * 0xFFFF_FFFF_FFFF_FFFF) by (nonlinear_arith)
            requires 0 <= mid <= 0xFFFF_FFFF_FFFF_FFFF;
        assert(0xFFFF_FFFF_FFFF_FFFF * 0xFFFF_FFFF_FFFF_FFFF <= u128::MAX) by (nonlinear_arith);
        if mid * mid <= n {
            lo = mid;
        } else {
            hi = mid - 1;
        }
    }
    proof {
        lemma_sqrt_floor_is(n as int, lo as int);
    }
    lo
}

/// Floor division of a 64-bit value by a positive divisor. Matches the
/// mathematical (Euclidean) quotient, which rounds toward minus infinity.
pub fn div_floor_i64(a: i64, b: i64) -> (q: i64)
    requires
        1 <= b,
        i64::MIN < a,
    ensures
        q == a as int / b as int,
{
    if a >= 0 {
        let q0 = (a as u64) / (b as u64);
        proof {
            assert(q0 <= a) by (nonlinear_arith)
                requires q0 == a as int / b as int, 0 <= a, 1 <= b;
        }
        q0 as i64
    } else {
        let na = (-a) as u64;
        let ub = b as u64;
        let q0 = na / ub;
        let r0 = na % ub;
        proof {
            lemma_fundamental_div_mod(na as int, ub as int);
            if r0 == 0 {
                assert(a as int == (-(q0 as int)) * (b as int) + 0) by (nonlinear_arith)
                    requires na as int == q0 as int * ub as int, a as int == -(na as int), ub == b;
                lemma_fundamental_div_mod_converse(a as int, b as int, -(q0 as int), 0);
            } else {
                assert(a as int == (-(q0 as int) - 1) * (b as int) + (b as int - r0 as int)) by (nonlinear_arith)
                    requires
                        na as int == q0 as int * ub as int + r0 as int,
                        a as int == -(na as int),
                        ub == b;
                lemma_fundamental_div_mod_converse(
                    a as int, b as int, -(q0 as int) - 1, b as int - r0 as int);
            }
        }
        if r0 == 0 {
            -(q0 as i64)
        } else {
            -(q0 as i64) - 1
        }
    }
}

/// Floor division of a 128-bit value by a positive divisor.
pub fn div_floor_i128(a: i128, b: i128) -> (q: i128)
    requires
        1 <= b,
        i128::MIN < a,
    ensures
        q == a as int / b as int,
{
    if a >= 0 {
        let q0 = (a as u128) / (b as u128);
        proof {
            assert(q0 <= a) by (nonlinear_arith)
                requires q0 == a as int / b as int, 0 <= a, 1 <= b;
        }
        q0 as i128
    } else {
        let na = (-a) as u128;
        let ub = b as u128;
        let q0 = na / ub;
        let r0 = na % ub;
        proof {
            lemma_fundamental_div_mod(na as int, ub as int);
            if r0 == 0 {
                assert(a as int == (-(q0 as int)) * (b as int) + 0) by (nonlinear_arith)
                    requires na as int == q0 as int * ub as int, a as int == -(na as int), ub == b;
                lemma_fundamental_div_mod_converse(a as int, b as int, -(q0 as int), 0);
            } else {
                assert(a as int == (-(q0 as int) - 1) * (b as int) + (b as int - r0 as int)) by (nonlinear_arith)
                    requires
                        na as int == q0 as int * ub as int + r0 as int,
                        a as int == -(na as int),
                        ub == b;
                lemma_fundamental_div_mod_converse(
                    a as int, b as int, -(q0 as int) - 1, b as int - r0 as int);
            }
        }
        if r0 == 0 {
            -(q0 as i128)
        } else {
            -(q0 as i128) - 1
        }
    }
}

/// The fixed-point product of `a` and `b`: `a * b` rescaled back down,
/// rounding toward minus infinity.
pub open spec fn fmul_spec(a: int, b: int) -> int {
    (a * b) / (SCALE as int)
}

/// Fixed-point multiplication.
pub fn fmul(a: i64, b: i64) -> (r: i64)
    requires
        -0x8000_0000 <= a <= 0x8000_0000,
        -0x8000_0000 <= b <= 0x8000_0000,
    ensures
        r == fmul_spec(a as int, b as int),
{
    proof {
        assert(-0x4000_0000_0000_0000 <= a as int * b as int <= 0x4000_0000_0000_0000)
            by (nonlinear_arith)
            requires -0x8000_0000 <= a as int <= 0x8000_0000, -0x8000_0000 <= b as int <= 0x8000_0000;
    }
    let p: i64 = a * b;
    div_floor_i64(p, SCALE)
}

/// A fixed-point product of factors in `[0, 1]` stays in `[0, 1]`.
pub proof fn lemma_fmul_unit_range(a: int, b: int)
    requires
        0 <= a <= SCALE as int,
        0 <= b <= SCALE as int,
    ensures
        0 <= fmul_spec(a, b) <= SCALE as int,
{
    assert(0 <= a * b <= 65536 * 65536) by (nonlinear_arith)
        requires 0 <= a <= 65536, 0 <= b <= 65536;
    assert(a * b / 65536 >= 0) by (nonlinear_arith)
        requires a * b >= 0;
    assert(a * b / 65536 <= 65536) by (nonlinear_arith)
        requires 0 <= a * b <= 65536 * 65536;
}

} // verus!
