//! Fixed-point integer arithmetic: the scale constant, integer square root,
//! floor division, and a sine/cosine approximation on integer angles.
//!
//! Geometry is carried in units of `1 / FP` pixels (or scene units); angles
//! are measured in milliradians, so a full turn is `TURN` angle units.

use vstd::prelude::*;
use vstd::arithmetic::div_mod::lemma_fundamental_div_mod;
use vstd::arithmetic::div_mod::lemma_mod_bound;
use vstd::arithmetic::div_mod::lemma_div_nonincreasing;

verus! {

/// Sub-units per unit of fixed-point geometry.
pub const FP: i64 = 1024;

/// Half a turn, in milliradians.
pub const HALF_TURN: i64 = 3142;

/// A quarter turn, in milliradians.
pub const QUARTER_TURN: i64 = 1571;

/// A full turn, in milliradians (kept at exactly `2 * HALF_TURN` so the
/// half-wave symmetry of the sine approximation is exact).
pub const TURN: i64 = 6284;

/// Largest angle magnitude the trigonometric helpers accept.
pub const ANGLE_MAX: i64 = 0x1000_0000_0000_000;

/// The integer square root of `n`: the greatest `r` with `r * r <= n`,
/// defined by primitive recursion.
pub open spec fn isqrt_spec(n: nat) -> nat
    decreases n,
{
    if n == 0 {
        0
    } else {
        let p = isqrt_spec((n - 1) as nat);
        if (p + 1) * (p + 1) <= n {
            p + 1
        } else {
            p
        }
    }
}

/// `isqrt_spec` squares to at most its argument, and is the greatest such
/// number.
pub proof fn lemma_isqrt_spec_bounds(n: nat)
    ensures
        isqrt_spec(n) * isqrt_spec(n) <= n,
        n < (isqrt_spec(n) + 1) * (isqrt_spec(n) + 1),
    decreases n,
{
    if n > 0 {
        lemma_isqrt_spec_bounds((n - 1) as nat);
        let p = isqrt_spec((n - 1) as nat);
        let s = isqrt_spec(n);
        assert(p * p <= n - 1);
        assert(n - 1 < (p + 1) * (p + 1));
        if (p + 1) * (p + 1) <= n {
            assert(s == p + 1);
            assert(n < (s + 1) * (s + 1)) by (nonlinear_arith)
                requires
                    n <= (p + 1) * (p + 1),
                    s == p + 1,
                    0 <= p,
            ;
        } else {
            assert(s == p);
            assert(n < (s + 1) * (s + 1));
        }
    } else {
        assert(isqrt_spec(n) == 0);
        assert(n < (isqrt_spec(n) + 1) * (isqrt_spec(n) + 1)) by (nonlinear_arith)
            requires
                n == 0,
                isqrt_spec(n) == 0,
        ;
    }
}

/// Any `r` with `r * r <= n < (r + 1) * (r + 1)` is `isqrt_spec(n)`.
pub proof fn lemma_isqrt_unique(n: nat, r: nat)
    requires
        r * r <= n,
        n < (r + 1) * (r + 1),
    ensures
        r == isqrt_spec(n),
{
    lemma_isqrt_spec_bounds(n);
    let s = isqrt_spec(n);
    assert(r == s) by (nonlinear_arith)
        requires
            r * r <= n,
            n < (r + 1) * (r + 1),
            s * s <= n,
            n < (s + 1) * (s + 1),
    ;
}

/// Integer square root: the greatest `r` with `r * r <= n`.
pub fn isqrt(n: u64) -> (r: u64)
    ensures
        r * r <= n,
        n < (r + 1) * (r + 1),
        r == isqrt_spec(n as nat),
        r < 0x1_0000_0000,
{
    let mut lo: u64 = 0;
    let mut hi: u64 = 0x1_0000_0000;
    while lo + 1 < hi
        invariant
            lo < hi <= 0x1_0000_0000,
            lo * lo <= n,
            n < hi * hi,
        decreases hi - lo,
    {
        let mid: u64 = lo + (hi - lo) / 2;
        assert(mid * mid < 0x1_0000_0000_0000_0000) by (nonlinear_arith)
            requires
                mid < 0x1_0000_0000,
        ;
        if mid * mid <= n {
            lo = mid;
        } else {
            hi = mid;
        }
    }
    proof {
        lemma_isqrt_unique(n as nat, lo as nat);
    }
    lo
}

/// The quotient `n / d` is the unique `q` with `q * d <= n < (q + 1) * d`.
pub proof fn lemma_div_unique(n: int, d: int, q: int)
    requires
        0 < d,
        q * d <= n < (q + 1) * d,
    ensures
        n / d == q,
{
    lemma_fundamental_div_mod(n, d);
    lemma_mod_bound(n, d);
    let u = n / d;
    let r = n % d;
    assert(q == u) by (nonlinear_arith)
        requires
            q * d <= n,
            n < (q + 1) * d,
            n == d * u + r,
            0 <= r < d,
            0 < d,
    ;
}

/// Quotient of a nonnegative dividend by a positive divisor.
pub fn div_nn(n: i64, d: i64) -> (r: i64)
    requires
        0 <= n,
        0 < d,
    ensures
        r == n as int / d as int,
{
    proof {
        lemma_div_nonincreasing(n as int, d as int);
        vstd::arithmetic::div_mod::lemma_div_pos_is_pos(n as int, d as int);
    }
    ((n as u64) / (d as u64)) as i64
}

/// Floor quotient of any dividend by a positive divisor; this matches the
/// Euclidean `/` of specifications when the divisor is positive.
pub fn div_fl(n: i64, d: i64) -> (r: i64)
    requires
        0 < d,
        i64::MIN < n,
    ensures
        r == n as int / d as int,
{
    if n >= 0 {
        div_nn(n, d)
    } else {
        let m: u64 = (-n) as u64;
        let du: u64 = d as u64;
        let qc: u64 = (m + du - 1) / du;
        proof {
            let mi = m as int;
            let di = d as int;
            lemma_fundamental_div_mod(mi + di - 1, di);
            lemma_mod_bound(mi + di - 1, di);
            lemma_div_pos(mi + di - 1, di);
            let qi = (mi + di - 1) / di;
            assert(qi <= mi && (-qi) * di <= -mi < ((-qi) + 1) * di) by (nonlinear_arith)
                requires
                    mi + di - 1 == di * qi + ((mi + di - 1) % di),
                    0 <= (mi + di - 1) % di < di,
                    0 < di,
                    0 < mi,
            ;
            lemma_div_unique(-mi, di, -qi);
        }
        -(qc as i64)
    }
}

proof fn lemma_div_pos(x: int, d: int)
    requires
        0 <= x,
        0 < d,
    ensures
        0 <= x / d,
{
    vstd::arithmetic::div_mod::lemma_div_pos_is_pos(x, d);
}

/// One positive half-wave of the sine approximation, on `[0, HALF_TURN]`
/// milliradians, scaled to `[0, FP]`.
pub open spec fn sin_half_spec(x: int) -> int {
    let a = x * (HALF_TURN - x);
    (16 * a * FP) / (5 * HALF_TURN * HALF_TURN - 4 * a)
}

fn sin_half(x: i64) -> (r: i64)
    requires
        0 <= x <= HALF_TURN,
    ensures
        r == sin_half_spec(x as int),
        0 <= r <= FP,
{
    proof {
        assert(0 <= x * (HALF_TURN - x) && 4 * (x * (HALF_TURN - x)) <= HALF_TURN * HALF_TURN)
            by (nonlinear_arith)
            requires
                0 <= x <= HALF_TURN,
        ;
    }
    let a: i64 = x * (HALF_TURN - x);
    let num: i64 = 16 * a * FP;
    let den: i64 = 5 * HALF_TURN * HALF_TURN - 4 * a;
    let r = div_nn(num, den);
    proof {
        lemma_fundamental_div_mod(num as int, den as int);
        lemma_mod_bound(num as int, den as int);
        assert((num as int) / (den as int) <= FP) by (nonlinear_arith)
            requires
                num == 16 * a * FP,
                16 * a <= den,
                0 < den,
                num as int == den * ((num as int) / (den as int)) + ((num as int) % (den as int)),
                0 <= (num as int) % (den as int) < den,
        ;
        lemma_div_pos(num as int, den as int);
    }
    r
}

/// Sine of an angle in milliradians, scaled to `[-FP, FP]`.
pub open spec fn sin_fp_spec(a: int) -> int {
    let m = a % (TURN as int);
    if m < HALF_TURN {
        sin_half_spec(m)
    } else {
        -sin_half_spec(m - HALF_TURN)
    }
}

/// Cosine of an angle in milliradians, scaled to `[-FP, FP]`.
pub open spec fn cos_fp_spec(a: int) -> int {
    sin_fp_spec(a + QUARTER_TURN)
}

/// Sine of an angle in milliradians, scaled so a result of `FP` is one.
pub fn sin_fp(a: i64) -> (r: i64)
    requires
        -ANGLE_MAX <= a <= ANGLE_MAX,
    ensures
        r == sin_fp_spec(a as int),
        -FP <= r <= FP,
{
    let q = div_fl(a, TURN);
    proof {
        lemma_fundamental_div_mod(a as int, TURN as int);
        lemma_mod_bound(a as int, TURN as int);
    }
    let m: i64 = a - q * TURN;
    if m < HALF_TURN {
        sin_half(m)
    } else {
        -sin_half(m - HALF_TURN)
    }
}

/// Cosine of an angle in milliradians, scaled so a result of `FP` is one.
pub fn cos_fp(a: i64) -> (r: i64)
    requires
        -ANGLE_MAX <= a <= ANGLE_MAX - QUARTER_TURN,
    ensures
        r == cos_fp_spec(a as int),
        -FP <= r <= FP,
{
    sin_fp(a + QUARTER_TURN)
}

/// Clamp `v` into `[lo, hi]`.
pub fn clamp_i64(v: i64, lo: i64, hi: i64) -> (r: i64)
    requires
        lo <= hi,
    ensures
        r == clamp_spec(v as int, lo as int, hi as int),
{
    if v < lo {
        lo
    } else if v > hi {
        hi
    } else {
        v
    }
}

/// Clamp `v` into `[lo, hi]`.
pub open spec fn clamp_spec(v: int, lo: int, hi: int) -> int {
    if v < lo {
        lo
    } else if v > hi {
        hi
    } else {
        v
    }
}

} // verus!
