//! Structural similarity of two grey-level samples, in exact arithmetic.
//!
//! With means `m1`, `m2`, variances `v1`, `v2` and covariance `c` (both with
//! the divisor `n - 1`), the index is
//! `(2 m1 m2 + c1)(2 c + c2) / ((m1^2 + m2^2 + c1)(v1 + v2 + c2))` with
//! `c1 = (0.01 * 255)^2 = 2601/400` and `c2 = (0.03 * 255)^2 = 23409/400`.
//! Numerator and denominator are kept as whole numbers by multiplying both
//! factors with `400 n^2` and `400 n (n - 1)`.

use vstd::prelude::*;
use crate::pixels::{dot_pixels, pixel_dot, pixel_sum, sum_pixels};
use crate::units::{div_towards_zero, trunc_div, UNIT};

verus! {

/// The most grey levels that a sample may have.
pub const MAX_SAMPLES: usize = 4096;

/// `n^2 (2 m1 m2 + c1)`, times 400.
pub open spec fn luminance_num(a: Seq<u8>, b: Seq<u8>) -> int {
    800 * (pixel_sum(a) * pixel_sum(b)) + 2601 * (a.len() * a.len())
}

/// `n^2 (m1^2 + m2^2 + c1)`, times 400.
pub open spec fn luminance_den(a: Seq<u8>, b: Seq<u8>) -> int {
    400 * (pixel_sum(a) * pixel_sum(a) + pixel_sum(b) * pixel_sum(b)) + 2601 * (a.len() * a.len())
}

/// `n (n - 1)` times the variance of `a`.
pub open spec fn scatter(a: Seq<u8>) -> int {
    a.len() * pixel_dot(a, a) - pixel_sum(a) * pixel_sum(a)
}

/// `n (n - 1)` times the covariance of `a` and `b`.
pub open spec fn co_scatter(a: Seq<u8>, b: Seq<u8>) -> int {
    a.len() * pixel_dot(a, b) - pixel_sum(a) * pixel_sum(b)
}

/// `n (n - 1) (2 c + c2)`, times 400.
pub open spec fn structure_num(a: Seq<u8>, b: Seq<u8>) -> int {
    800 * co_scatter(a, b) + 23409 * (a.len() * (a.len() - 1))
}

/// `n (n - 1) (v1 + v2 + c2)`, times 400.
pub open spec fn structure_den(a: Seq<u8>, b: Seq<u8>) -> int {
    400 * (scatter(a) + scatter(b)) + 23409 * (a.len() * (a.len() - 1))
}

/// The structural similarity of two samples of the same size, in
/// millionths, rounded towards zero.
pub open spec fn spec_ssim(a: Seq<u8>, b: Seq<u8>) -> int {
    trunc_div(
        luminance_num(a, b) * structure_num(a, b) * (UNIT as int),
        luminance_den(a, b) * structure_den(a, b),
    )
}

/// The sum of the squared differences between the values and `v`.
pub open spec fn deviation(x: Seq<int>, v: int) -> int
    decreases x.len(),
{
    if x.len() == 0 {
        0
    } else {
        deviation(x.drop_last(), v) + (x.last() - v) * (x.last() - v)
    }
}

/// The sum of the numbers.
pub open spec fn int_sum(x: Seq<int>) -> int
    decreases x.len(),
{
    if x.len() == 0 {
        0
    } else {
        int_sum(x.drop_last()) + x.last()
    }
}

/// The sum of the squares of the numbers.
pub open spec fn int_squares(x: Seq<int>) -> int
    decreases x.len(),
{
    if x.len() == 0 {
        0
    } else {
        int_squares(x.drop_last()) + x.last() * x.last()
    }
}

proof fn lemma_deviation(x: Seq<int>, v: int)
    ensures
        deviation(x, v) >= 0,
        deviation(x, v) == int_squares(x) - 2 * v * int_sum(x) + x.len() * (v * v),
    decreases x.len(),
{
    if x.len() > 0 {
        let y = x.drop_last();
        let w = x.last();
        lemma_deviation(y, v);
        let k = y.len() as int;
        let n = x.len() as int;
        let qy = int_squares(y);
        let sy = int_sum(y);
        let dy = deviation(y, v);
        assert((w - v) * (w - v) >= 0) by (nonlinear_arith);
        assert(dy + (w - v) * (w - v) == (qy + w * w) - 2 * v * (sy + w) + n * (v * v))
            by (nonlinear_arith)
            requires
                dy == qy - 2 * v * sy + k * (v * v),
                n == k + 1,
        ;
    } else {
        assert(int_squares(x) - 2 * v * int_sum(x) + x.len() * (v * v) == 0) by (nonlinear_arith)
            requires
                int_squares(x) == 0,
                int_sum(x) == 0,
                x.len() == 0,
        ;
    }
}

/// The sum of the squares, taken as often as there are values, is at least
/// the square of the sum.
proof fn lemma_squares_dominate(x: Seq<int>)
    ensures
        x.len() * int_squares(x) >= int_sum(x) * int_sum(x),
    decreases x.len(),
{
    if x.len() > 0 {
        let y = x.drop_last();
        let w = x.last();
        lemma_squares_dominate(y);
        lemma_deviation(y, w);
        let k = y.len() as int;
        let q = int_squares(y);
        let s = int_sum(y);
        assert((k + 1) * (q + w * w) - (s + w) * (s + w) == (k * q - s * s) + (q - 2 * w * s + k * (
        w * w))) by (nonlinear_arith);
    } else {
        assert(int_sum(x) * int_sum(x) == 0) by (nonlinear_arith)
            requires
                int_sum(x) == 0,
        ;
    }
}

/// The sums or the differences of two samples, position by position.
pub open spec fn combined(a: Seq<u8>, b: Seq<u8>, sign: int) -> Seq<int> {
    Seq::new(a.len(), |i: int| a[i] as int + sign * (b[i] as int))
}

proof fn lemma_combined(a: Seq<u8>, b: Seq<u8>, sign: int)
    requires
        a.len() == b.len(),
        sign == 1 || sign == -1,
    ensures
        int_sum(combined(a, b, sign)) == pixel_sum(a) + sign * pixel_sum(b),
        int_squares(combined(a, b, sign)) == pixel_dot(a, a) + 2 * sign * pixel_dot(a, b)
            + pixel_dot(b, b),
    decreases a.len(),
{
    if a.len() > 0 {
        let a0 = a.drop_last();
        let b0 = b.drop_last();
        lemma_combined(a0, b0, sign);
        assert(combined(a, b, sign).drop_last() =~= combined(a0, b0, sign));
        let x = a.last() as int;
        let y = b.last() as int;
        assert(combined(a, b, sign).last() == x + sign * y);
        assert((x + sign * y) * (x + sign * y) == x * x + 2 * sign * (x * y) + y * y)
            by (nonlinear_arith)
            requires
                sign == 1 || sign == -1,
        ;
        assert(2 * sign * (pixel_dot(a0, b0) + x * y) == 2 * sign * pixel_dot(a0, b0) + 2 * sign
            * (x * y)) by (nonlinear_arith);
        assert(sign * (pixel_sum(b0) + y) == sign * pixel_sum(b0) + sign * y) by (nonlinear_arith);
    }
}

/// Twice the co-scatter of two samples is, in absolute value, at most the
/// sum of their scatters; the scatters themselves are not negative.
pub proof fn lemma_scatter_bounds(a: Seq<u8>, b: Seq<u8>)
    requires
        a.len() == b.len(),
    ensures
        scatter(a) >= 0,
        scatter(b) >= 0,
        2 * co_scatter(a, b) <= scatter(a) + scatter(b),
        -2 * co_scatter(a, b) <= scatter(a) + scatter(b),
        co_scatter(a, a) == scatter(a),
{
    let n = a.len() as int;
    let s1 = pixel_sum(a);
    let s2 = pixel_sum(b);
    let q1 = pixel_dot(a, a);
    let q2 = pixel_dot(b, b);
    let p = pixel_dot(a, b);
    lemma_combined(a, b, 1);
    lemma_combined(a, b, -1);
    lemma_squares_dominate(combined(a, b, 1));
    lemma_squares_dominate(combined(a, b, -1));
    assert(n * (q1 + 2 * 1 * p + q2) - (s1 + 1 * s2) * (s1 + 1 * s2) == (n * q1 - s1 * s1) + (n * q2
        - s2 * s2) + 2 * (n * p - s1 * s2)) by (nonlinear_arith);
    assert(n * (q1 + 2 * (-1) * p + q2) - (s1 + (-1) * s2) * (s1 + (-1) * s2) == (n * q1 - s1 * s1)
        + (n * q2 - s2 * s2) - 2 * (n * p - s1 * s2)) by (nonlinear_arith);
    lemma_combined(a, a, -1);
    lemma_combined(b, b, -1);
    lemma_combined(a, a, 1);
    lemma_combined(b, b, 1);
    lemma_squares_dominate(combined(a, a, 1));
    lemma_squares_dominate(combined(b, b, 1));
    assert(n * (q1 + 2 * 1 * q1 + q1) - (s1 + 1 * s1) * (s1 + 1 * s1) == 4 * (n * q1 - s1 * s1))
        by (nonlinear_arith);
    assert(n * (q2 + 2 * 1 * q2 + q2) - (s2 + 1 * s2) * (s2 + 1 * s2) == 4 * (n * q2 - s2 * s2))
        by (nonlinear_arith);
}

/// The similarity of any two samples of the same size, with at least two
/// grey levels, lies between -1 and 1, and its denominator is positive.
pub proof fn lemma_ssim_range(a: Seq<u8>, b: Seq<u8>)
    requires
        a.len() == b.len(),
        a.len() >= 2,
    ensures
        luminance_den(a, b) * structure_den(a, b) > 0,
        -(UNIT as int) <= spec_ssim(a, b) <= UNIT as int,
{
    lemma_scatter_bounds(a, b);
    let n = a.len() as int;
    let s1 = pixel_sum(a);
    let s2 = pixel_sum(b);
    let ln = luminance_num(a, b);
    let ld = luminance_den(a, b);
    let sn = structure_num(a, b);
    let sd = structure_den(a, b);
    lemma_pixel_sum_nonnegative(a);
    lemma_pixel_sum_nonnegative(b);
    assert(n * n >= 4 && n * (n - 1) >= 2) by (nonlinear_arith)
        requires
            n >= 2,
    ;
    assert(0 <= 2 * (s1 * s2) <= s1 * s1 + s2 * s2) by (nonlinear_arith)
        requires
            s1 >= 0,
            s2 >= 0,
    ;
    assert(0 < ln <= ld);
    assert(-sd < sn <= sd && sd > 0);
    let u = UNIT as int;
    assert(ld * sd > 0 && -(ld * sd) <= ln * sn <= ld * sd) by (nonlinear_arith)
        requires
            0 < ln <= ld,
            -sd < sn <= sd,
            sd > 0,
    ;
    let num = ln * sn * u;
    let den = ld * sd;
    assert(num == (ln * sn) * u);
    if num >= 0 {
        assert(num / den <= u) by (nonlinear_arith)
            requires
                0 <= num,
                num == (ln * sn) * u,
                ln * sn <= den,
                den > 0,
                u == 1_000_000,
        ;
        assert(num / den >= 0) by (nonlinear_arith)
            requires
                0 <= num,
                den > 0,
        ;
    } else {
        assert((-num) / den <= u) by (nonlinear_arith)
            requires
                0 <= -num,
                num == (ln * sn) * u,
                -(ln * sn) <= den,
                den > 0,
                u == 1_000_000,
        ;
        assert((-num) / den >= 0) by (nonlinear_arith)
            requires
                0 <= -num,
                den > 0,
        ;
    }
}

/// A sum of grey levels is not negative.
pub proof fn lemma_pixel_sum_nonnegative(a: Seq<u8>)
    ensures
        0 <= pixel_sum(a) <= 255 * a.len(),
        0 <= pixel_dot(a, a) <= 65025 * a.len(),
    decreases a.len(),
{
    if a.len() > 0 {
        lemma_pixel_sum_nonnegative(a.drop_last());
        let x = a.last() as int;
        assert(0 <= x * x <= 65025) by (nonlinear_arith)
            requires
                0 <= x <= 255,
        ;
    }
}

/// A sample is as similar to itself as can be.
pub proof fn lemma_ssim_of_identical_samples(a: Seq<u8>)
    requires
        a.len() >= 2,
    ensures
        spec_ssim(a, a) == UNIT as int,
{
    lemma_ssim_range(a, a);
    lemma_scatter_bounds(a, a);
    let s = pixel_sum(a);
    assert(luminance_num(a, a) == luminance_den(a, a)) by (nonlinear_arith)
        requires
            luminance_num(a, a) == 800 * (s * s) + 2601 * (a.len() * a.len()),
            luminance_den(a, a) == 400 * (s * s + s * s) + 2601 * (a.len() * a.len()),
    ;
    assert(structure_num(a, a) == structure_den(a, a));
    let den = luminance_den(a, a) * structure_den(a, a);
    let u = UNIT as int;
    assert((den * u) / den == u) by (nonlinear_arith)
        requires
            den > 0,
    ;
    assert(den * u >= 0) by (nonlinear_arith)
        requires
            den > 0,
            u == 1_000_000,
    ;
}

/// The structural similarity of two samples of the same size, in millionths.
pub fn ssim_of_samples(a: &Vec<u8>, b: &Vec<u8>) -> (r: i32)
    requires
        a.len() == b.len(),
        2 <= a.len() <= MAX_SAMPLES,
    ensures
        r as int == spec_ssim(a@, b@),
        -(UNIT as int) <= r as int <= UNIT as int,
{
    let n: i128 = a.len() as i128;
    let s1: i128 = sum_pixels(a) as i128;
    let s2: i128 = sum_pixels(b) as i128;
    let q1: i128 = dot_pixels(a, a) as i128;
    let q2: i128 = dot_pixels(b, b) as i128;
    let p: i128 = dot_pixels(a, b) as i128;
    proof {
        lemma_ssim_range(a@, b@);
        let bs: int = 1_044_480;
        let bq: int = 266_342_400;
        assert(0 <= s1 <= bs && 0 <= s2 <= bs);
        assert(0 <= q1 <= bq && 0 <= q2 <= bq && 0 <= p <= bq);
        assert(0 <= s1 * s2 <= bs * bs && 0 <= s1 * s1 <= bs * bs && 0 <= s2 * s2 <= bs * bs)
            by (nonlinear_arith)
            requires
                0 <= s1 <= bs,
                0 <= s2 <= bs,
        ;
        assert(0 <= n * n <= 4096 * 4096 && 0 <= n * (n - 1) <= 4096 * 4096) by (nonlinear_arith)
            requires
                2 <= n <= 4096,
        ;
        assert(0 <= n * p <= 4096 * bq && 0 <= n * q1 <= 4096 * bq && 0 <= n * q2 <= 4096 * bq)
            by (nonlinear_arith)
            requires
                2 <= n <= 4096,
                0 <= p <= bq,
                0 <= q1 <= bq,
                0 <= q2 <= bq,
        ;
    }
    let ln: i128 = 800 * (s1 * s2) + 2601 * (n * n);
    let ld: i128 = 400 * (s1 * s1 + s2 * s2) + 2601 * (n * n);
    let sn: i128 = 800 * (n * p - s1 * s2) + 23409 * (n * (n - 1));
    let sd: i128 = 400 * ((n * q1 - s1 * s1) + (n * q2 - s2 * s2)) + 23409 * (n * (n - 1));
    proof {
        let m: int = 2_000_000_000_000_000;
        assert(0 <= ln <= m && 0 <= ld <= m && -m <= sn <= m && -m <= sd <= m);
        assert(-(m * m) <= ln * sn <= m * m && -(m * m) <= ld * sd <= m * m) by (nonlinear_arith)
            requires
                0 <= ln <= m,
                0 <= ld <= m,
                -m <= sn <= m,
                -m <= sd <= m,
        ;
        assert(-(m * m) * 1_000_000 <= (ln * sn) * 1_000_000 <= (m * m) * 1_000_000)
            by (nonlinear_arith)
            requires
                -(m * m) <= ln * sn <= m * m,
        ;
        assert(ln * sn * 1_000_000 == (ln * sn) * 1_000_000);
    }
    let num: i128 = (ln * sn) * 1_000_000;
    let den: i128 = ld * sd;
    let q: i128 = div_towards_zero(num, den);
    q as i32
}

} // verus!
