//! Fixed-point arithmetic for the planner.
//!
//! Values are integers in thousandths of a unit. This module supplies the
//! shared numeric kernel: truncating division (what `/` does on machine
//! integers), a floor square root, and a thousandth-scaled sine and cosine
//! built from the classical rational approximation of the half-wave.

use vstd::prelude::*;
use vstd::arithmetic::div_mod::{
    lemma_div_pos_is_pos, lemma_div_nonincreasing, lemma_div_is_ordered,
    lemma_fundamental_div_mod, lemma_fundamental_div_mod_converse_mod,
    lemma_mod_bound,
};
use vstd::math::abs;

verus! {

/// The half turn (pi radians), in thousandths of a radian.
pub const PI_MILLI: i64 = 3142;

/// The quarter turn (pi/2 radians), in thousandths of a radian.
pub const HALF_PI_MILLI: i64 = 1571;

/// The full turn (2 pi radians), in thousandths of a radian.
pub const TWO_PI_MILLI: i64 = 6283;

/// The quotient of `a / b` rounded toward zero, as `/` behaves on Rust's
/// machine integers.
pub open spec fn div_trunc(a: int, b: int) -> int
    recommends
        b != 0,
{
    let q = abs(a) as int / abs(b) as int;
    if (a >= 0) == (b >= 0) {
        q
    } else {
        -q
    }
}

/// The magnitude of a truncating quotient never exceeds the magnitude bound
/// of its dividend.
pub proof fn lemma_div_trunc_bound(a: int, b: int, m: int)
    requires
        b != 0,
        abs(a) <= m,
    ensures
        -m <= div_trunc(a, b) <= m,
{
    let an = abs(a) as int;
    let bn = abs(b) as int;
    lemma_div_pos_is_pos(an, bn);
    lemma_div_nonincreasing(an, bn);
}

/// Dividing by a positive divisor shrinks a magnitude bound accordingly.
pub proof fn lemma_div_trunc_div_bound(a: int, b: int, m: int)
    requires
        b > 0,
        0 <= m,
        abs(a) <= m,
    ensures
        -(m / b) <= div_trunc(a, b) <= m / b,
{
    let an = abs(a) as int;
    lemma_div_pos_is_pos(an, b);
    lemma_div_is_ordered(an, m, b);
    lemma_div_pos_is_pos(m, b);
}

/// A product of bounded factors is bounded by the product of the bounds.
pub proof fn lemma_mul_bound(a: int, b: int, aa: int, bb: int)
    requires
        -aa <= a <= aa,
        -bb <= b <= bb,
    ensures
        -(aa * bb) <= a * b <= aa * bb,
{
    assert(-(aa * bb) <= a * b <= aa * bb) by (nonlinear_arith)
        requires
            -aa <= a <= aa,
            -bb <= b <= bb,
    ;
}

/// Truncating division on `i128`, proved equal to `div_trunc`.
pub fn div_t(a: i128, b: i128) -> (q: i128)
    requires
        b != 0,
        a != i128::MIN,
    ensures
        q == div_trunc(a as int, b as int),
{
    proof {
        let an = abs(a as int) as int;
        let bn = abs(b as int) as int;
        lemma_div_pos_is_pos(an, bn);
        lemma_div_nonincreasing(an, bn);
    }
    let r = a.checked_div(b);
    match r {
        Some(q) => q,
        None => {
            proof {
                assert(false);
            }
            0
        },
    }
}

/// `r` is the floor of the real square root of `n`.
pub open spec fn is_floor_sqrt(n: int, r: int) -> bool {
    0 <= r && r * r <= n && n < (r + 1) * (r + 1)
}

/// The floor of the real square root of a nonnegative integer.
pub open spec fn floor_sqrt(n: int) -> int {
    choose|r: int| is_floor_sqrt(n, r)
}

/// Only one integer is the floor square root of `n`.
pub proof fn lemma_floor_sqrt_unique(n: int, r1: int, r2: int)
    requires
        is_floor_sqrt(n, r1),
        is_floor_sqrt(n, r2),
    ensures
        r1 == r2,
{
    assert(r1 == r2) by (nonlinear_arith)
        requires
            0 <= r1,
            r1 * r1 <= n,
            n < (r1 + 1) * (r1 + 1),
            0 <= r2,
            r2 * r2 <= n,
            n < (r2 + 1) * (r2 + 1),
    ;
}

/// Any witness pins `floor_sqrt` down to itself.
pub proof fn lemma_floor_sqrt(n: int, r: int)
    requires
        is_floor_sqrt(n, r),
    ensures
        floor_sqrt(n) == r,
{
    assert(is_floor_sqrt(n, floor_sqrt(n))) by {
        assert(exists|x: int| is_floor_sqrt(n, x)) by {
            assert(is_floor_sqrt(n, r));
        }
    }
    lemma_floor_sqrt_unique(n, floor_sqrt(n), r);
}

/// The floor square root is below an integer bound exactly when the radicand
/// is below the bound's square: comparisons of a rooted distance against an
/// integer threshold are exact.
pub proof fn lemma_floor_sqrt_lt(n: int, r: int, k: int)
    requires
        is_floor_sqrt(n, r),
        0 <= k,
    ensures
        r < k <==> n < k * k,
{
    assert(r < k <==> n < k * k) by (nonlinear_arith)
        requires
            0 <= r,
            r * r <= n,
            n < (r + 1) * (r + 1),
            0 <= k,
    ;
}

/// The floor square root of `n`, by binary search on the answer.
pub fn isqrt(n: u128) -> (r: u128)
    ensures
        is_floor_sqrt(n as int, r as int),
{
    if n == 0 {
        return 0;
    }
    let mut lo: u128 = 0;
    let mut hi: u128 = 0x1_0000_0000_0000_0000;
    proof {
        assert((hi * hi) > n as int) by (nonlinear_arith)
            requires
                hi == 0x1_0000_0000_0000_0000,
                n <= u128::MAX,
        ;
    }
    while lo + 1 < hi
        invariant
            0 <= lo < hi <= 0x1_0000_0000_0000_0000,
            lo * lo <= n,
            (hi as int) * (hi as int) > n,
        decreases hi - lo,
    {
        let mid = lo + (hi - lo) / 2;
        proof {
            assert(lo < mid < hi);
            assert(mid * mid <= u128::MAX) by (nonlinear_arith)
                requires
                    0 < mid < 0x1_0000_0000_0000_0000,
            ;
        }
        if mid * mid <= n {
            lo = mid;
        } else {
            hi = mid;
        }
    }
    proof {
        assert(hi == lo + 1);
    }
    lo
}

/// One half-wave of the thousandth-scaled sine: for `x` in `[0, PI_MILLI]`
/// (thousandths of a radian), the classical rational approximation
/// `16 x (pi - x) / (5 pi^2 - 4 x (pi - x))`, scaled to thousandths.
pub open spec fn half_sine(x: int) -> int
    recommends
        0 <= x <= PI_MILLI,
{
    (16000 * x * (3142 - x)) / (49360820 - 4 * x * (3142 - x))
}

/// The half-wave stays within one thousandth-scaled unit.
pub proof fn lemma_half_sine_range(x: int)
    requires
        0 <= x <= 3142,
    ensures
        0 <= half_sine(x) <= 1000,
{
    let t = x * (3142 - x);
    let num = 16000 * t;
    let den = 49360820 - 4 * t;
    assert(0 <= t && 4 * t <= 3142 * 3142 && 16000 * x * (3142 - x) == num && 49360820 - 4 * x * (
    3142 - x) == den) by (nonlinear_arith)
        requires
            0 <= x <= 3142,
            t == x * (3142 - x),
            num == 16000 * t,
            den == 49360820 - 4 * t,
    ;
    assert(den > 0);
    assert(half_sine(x) == num / den);
    lemma_div_pos_is_pos(num, den);
    assert(num <= 1000 * den);
    assert(num / den <= (1000 * den) / den) by {
        lemma_div_is_ordered(num, 1000 * den, den);
    }
    assert((1000 * den) / den == 1000) by (nonlinear_arith)
        requires
            den > 0,
    ;
}

/// The thousandth-scaled sine of an angle in thousandths of a radian: the
/// angle reduced into one turn, then the half-wave with its sign.
pub open spec fn sin_milli(a: int) -> int {
    let m = a % 6283;
    if m <= 3142 {
        half_sine(m)
    } else {
        -half_sine(m - 3142)
    }
}

/// The thousandth-scaled cosine: the sine a quarter turn ahead.
pub open spec fn cos_milli(a: int) -> int {
    sin_milli(a + 1571)
}

/// The Euclidean remainder of `a` by the full turn.
fn reduce_turn(a: i64) -> (m: i64)
    ensures
        m == a as int % 6283,
        0 <= m < 6283,
{
    let r = match a.checked_rem(TWO_PI_MILLI) {
        Some(r) => r,
        None => {
            proof {
                assert(false);
            }
            0
        },
    };
    if r < 0 {
        proof {
            let aa = -(a as int);
            lemma_fundamental_div_mod(aa, 6283);
            let q = aa / 6283;
            let s = aa % 6283;
            lemma_mod_bound(aa, 6283);
            assert(r == -s);
            assert(a as int == (-q - 1) * 6283 + (6283 - s)) by (nonlinear_arith)
                requires
                    -(a as int) == 6283 * q + s,
            ;
            lemma_fundamental_div_mod_converse_mod(a as int, 6283, -q - 1, 6283 - s);
        }
        r + TWO_PI_MILLI
    } else {
        proof {
            if a as int >= 0 {
                lemma_mod_bound(a as int, 6283);
            } else {
                let aa = -(a as int);
                lemma_fundamental_div_mod(aa, 6283);
                let q = aa / 6283;
                let s = aa % 6283;
                lemma_mod_bound(aa, 6283);
                assert(r == -s && r >= 0);
                assert(s == 0);
                assert(a as int == (-q) * 6283 + 0) by (nonlinear_arith)
                    requires
                        -(a as int) == 6283 * q + 0,
                ;
                lemma_fundamental_div_mod_converse_mod(a as int, 6283, -q, 0);
            }
        }
        r
    }
}

/// The half-wave of the scaled sine, on `[0, PI_MILLI]`.
fn half_sine_exec(x: i64) -> (s: i64)
    requires
        0 <= x <= 3142,
    ensures
        s == half_sine(x as int),
        0 <= s <= 1000,
{
    proof {
        assert(0 <= x * (3142 - x) <= 3142 * 3142) by (nonlinear_arith)
            requires
                0 <= x <= 3142,
        ;
        lemma_half_sine_range(x as int);
    }
    let t: i64 = x * (3142 - x);
    let num: u64 = (16000 * t) as u64;
    let den: u64 = (49360820 - 4 * t) as u64;
    proof {
        assert(16000 * (x as int) * (3142 - x as int) == num && 49360820 - 4 * (x as int) * (3142
            - x as int) == den) by (nonlinear_arith)
            requires
                t == (x as int) * (3142 - x as int),
                num == 16000 * (t as int),
                den == 49360820 - 4 * (t as int),
        ;
        assert(half_sine(x as int) == num as int / den as int);
    }
    (num / den) as i64
}

/// The thousandth-scaled sine of an angle in thousandths of a radian.
pub fn fxp_sin(a: i64) -> (s: i64)
    ensures
        s == sin_milli(a as int),
        -1000 <= s <= 1000,
{
    let m = reduce_turn(a);
    if m <= 3142 {
        half_sine_exec(m)
    } else {
        -half_sine_exec(m - 3142)
    }
}

/// The thousandth-scaled cosine of an angle in thousandths of a radian.
pub fn fxp_cos(a: i64) -> (s: i64)
    requires
        a + 1571 <= i64::MAX,
    ensures
        s == cos_milli(a as int),
        -1000 <= s <= 1000,
{
    fxp_sin(a + HALF_PI_MILLI)
}

} // verus!
