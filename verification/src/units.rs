//! Fixed-point scores.
//!
//! A score (confidence, similarity, overlap, weight) is a whole number of
//! millionths: `UNIT` stands for 1.0. Products and quotients round towards
//! zero, so every formula has exactly one value.

use vstd::prelude::*;

verus! {

/// The fixed-point representation of 1.0.
pub const UNIT: u32 = 1_000_000;

/// `x` limited to the scores between 0 and 1.
pub open spec fn clamp_unit(x: int) -> int {
    if x < 0 {
        0
    } else if x > UNIT as int {
        UNIT as int
    } else {
        x
    }
}

/// `a / b` in millionths, rounded down; 0 where `b` is not positive.
pub open spec fn ratio(a: int, b: int) -> int {
    if b > 0 {
        (a * (UNIT as int)) / b
    } else {
        0
    }
}

/// The product of a score and a weight, both in millionths, rounded down.
pub open spec fn scale(x: int, weight: int) -> int {
    (x * weight) / (UNIT as int)
}

/// The mean of two scores, rounded down.
pub open spec fn mean2(a: int, b: int) -> int {
    (a + b) / 2
}

/// `a / b` rounded towards zero; 0 where `b` is not positive.
pub open spec fn trunc_div(a: int, b: int) -> int {
    if b <= 0 {
        0
    } else if a >= 0 {
        a / b
    } else {
        -((-a) / b)
    }
}

/// The absolute value.
pub open spec fn abs_int(a: int) -> int {
    if a >= 0 {
        a
    } else {
        -a
    }
}

/// The ratio of a part to the whole is a score between 0 and 1.
pub proof fn lemma_ratio_bounds(a: int, b: int)
    requires
        0 <= a <= b,
    ensures
        0 <= ratio(a, b) <= UNIT as int,
        b > 0 && a == b ==> ratio(a, b) == UNIT as int,
        a == 0 ==> ratio(a, b) == 0,
{
    if b > 0 {
        let u = UNIT as int;
        assert(0 <= a * u <= b * u) by (nonlinear_arith)
            requires
                0 <= a <= b,
                u == 1_000_000,
        ;
        assert((a * u) / b <= u && 0 <= (a * u) / b) by (nonlinear_arith)
            requires
                0 <= a * u <= b * u,
                b > 0,
        ;
        if a == b {
            assert((b * u) / b == u) by (nonlinear_arith)
                requires
                    b > 0,
            ;
        }
        if a == 0 {
            assert(a * u == 0) by (nonlinear_arith)
                requires
                    a == 0,
            ;
        }
    }
}

/// A score scaled by a weight of at most 1 is not negative and not
/// greater than the score.
pub proof fn lemma_scale_bounds(x: int, weight: int)
    requires
        0 <= x,
        0 <= weight <= UNIT as int,
    ensures
        0 <= scale(x, weight) <= x,
{
    let u = UNIT as int;
    assert(0 <= x * weight <= x * u) by (nonlinear_arith)
        requires
            0 <= x,
            0 <= weight <= u,
    ;
    assert(0 <= (x * weight) / u <= x) by (nonlinear_arith)
        requires
            0 <= x * weight <= x * u,
            u == 1_000_000,
    ;
}

/// The product of a score and a weight, rounded down.
pub fn scale_by(x: u32, weight: u32) -> (r: u32)
    requires
        weight <= UNIT,
    ensures
        r as int == scale(x as int, weight as int),
        r <= x,
{
    proof {
        lemma_scale_bounds(x as int, weight as int);
        assert(x as int * weight as int <= 0xffff_ffff * 1_000_000) by (nonlinear_arith)
            requires
                0 <= x as int <= 0xffff_ffff,
                0 <= weight as int <= 1_000_000,
        ;
    }
    let p: u64 = (x as u64) * (weight as u64);
    (p / (UNIT as u64)) as u32
}

/// `a / b` rounded towards zero, for a positive divisor.
pub fn div_towards_zero(a: i128, b: i128) -> (r: i128)
    requires
        b > 0,
        a > i128::MIN,
    ensures
        r as int == trunc_div(a as int, b as int),
{
    if a >= 0 {
        let q: u128 = (a as u128) / (b as u128);
        assert(q <= a) by (nonlinear_arith)
            requires
                q == (a as int) / (b as int),
                a >= 0,
                b > 0,
        ;
        q as i128
    } else {
        let m: u128 = (-a) as u128;
        let q: u128 = m / (b as u128);
        assert(q <= m) by (nonlinear_arith)
            requires
                q == (m as int) / (b as int),
                m >= 0,
                b > 0,
        ;
        -(q as i128)
    }
}

/// The integer square root: the greatest number whose square is at most `n`.
pub open spec fn isqrt(n: nat) -> nat
    decreases n,
{
    if n == 0 {
        0
    } else {
        let r = 2 * isqrt(n / 4);
        if (r + 1) * (r + 1) <= n {
            r + 1
        } else {
            r
        }
    }
}

/// The square of the integer square root is at most `n`, and the square of
/// the next number is more.
pub proof fn lemma_isqrt(n: nat)
    ensures
        isqrt(n) * isqrt(n) <= n < (isqrt(n) + 1) * (isqrt(n) + 1),
    decreases n,
{
    if n > 0 {
        let q = n / 4;
        let s = isqrt(q) as int;
        lemma_isqrt(q);
        let r = 2 * s;
        let m = n as int;
        assert(r * r <= m < (r + 2) * (r + 2)) by (nonlinear_arith)
            requires
                s * s <= q < (s + 1) * (s + 1),
                q == m / 4,
                m >= 0,
                r == 2 * s,
        ;
        let v = isqrt(n) as int;
        if (r + 1) * (r + 1) <= m {
            assert(v == r + 1);
            assert((v + 1) * (v + 1) == (r + 2) * (r + 2)) by (nonlinear_arith)
                requires
                    v == r + 1,
            ;
        } else {
            assert(v == r);
        }
    } else {
        assert(isqrt(n) == 0);
        assert((0nat + 1) * (0nat + 1) == 1) by (nonlinear_arith);
    }
}

/// The integer square root of a number that does not exceed a square does
/// not exceed its root.
pub proof fn lemma_isqrt_at_most(n: nat, m: nat)
    requires
        n <= m * m,
    ensures
        isqrt(n) <= m,
{
    lemma_isqrt(n);
    let r = isqrt(n);
    if r > m {
        assert(r * r >= (m + 1) * (m + 1)) by (nonlinear_arith)
            requires
                r >= m + 1,
        ;
        assert((m + 1) * (m + 1) > m * m) by (nonlinear_arith);
    }
}

/// The integer square root of a number below 2^120.
pub fn integer_sqrt(n: u128) -> (r: u64)
    requires
        n < 0x100_0000_0000_0000_0000_0000_0000_0000,
    ensures
        r as nat == isqrt(n as nat),
        r <= 0x1000_0000_0000_0000,
    decreases n,
{
    if n == 0 {
        return 0;
    }
    let s: u64 = integer_sqrt(n / 4);
    let r: u128 = 2 * (s as u128);
    proof {
        lemma_isqrt(n as nat);
        let hi: int = 0x2000_0000_0000_0001;
        assert((r + 1) * (r + 1) <= hi * hi) by (nonlinear_arith)
            requires
                0 <= r + 1 <= hi,
        ;
        assert(hi * hi < 0x1000_0000_0000_0000_0000_0000_0000_0000) by (nonlinear_arith)
            requires
                hi == 0x2000_0000_0000_0001,
        ;
        let v = isqrt(n as nat) as int;
        assert(v <= 0x1000_0000_0000_0000) by (nonlinear_arith)
            requires
                v * v <= n as int,
                (n as int) < 0x100_0000_0000_0000_0000_0000_0000_0000,
                v >= 0,
        ;
    }
    if (r + 1) * (r + 1) <= n {
        (r + 1) as u64
    } else {
        r as u64
    }
}

} // verus!
