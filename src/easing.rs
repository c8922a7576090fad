//! Easing curves evaluated exactly on rational progress values.
use vstd::prelude::*;

verus! {

/// The easing curves a tween can follow.
#[derive(Debug, Clone, Copy, PartialEq, Eq, Structural)]
pub enum EasingFunction {
    QuadraticIn,
    BounceOut,
}

/// A non-negative rational number `num / den`.
#[derive(Debug, Clone, Copy, PartialEq, Eq, Structural)]
pub struct Fraction {
    pub num: u128,
    pub den: u128,
}

impl Fraction {
    /// The fraction lies in `[0, 1]` and has a positive denominator.
    pub open spec fn is_unit(self) -> bool {
        0 < self.den && self.num <= self.den
    }

    pub fn zero() -> (r: Fraction)
        ensures
            r.num == 0 && r.den == 1,
    {
        Fraction { num: 0, den: 1 }
    }

    pub fn one() -> (r: Fraction)
        ensures
            r.num == 1 && r.den == 1,
    {
        Fraction { num: 1, den: 1 }
    }
}

/// `n` clamped into `[0, d]`.
pub open spec fn clamp_spec(n: int, d: int) -> int {
    if n < 0 {
        0
    } else if n > d {
        d
    } else {
        n
    }
}

/// Numerator and denominator of one piece of the bounce-out spline at `p = n / d`.
///
/// Piece 0 covers `[0, 4/11)`, piece 1 `[4/11, 8/11)`, piece 2 `[8/11, 9/10)` and
/// piece 3 `[9/10, 1]`.
pub open spec fn bounce_piece(i: int, n: int, d: int) -> (int, int) {
    if i == 0 {
        (121 * (n * n), 16 * (d * d))
    } else if i == 1 {
        (363 * (n * n) - 396 * (n * d) + 136 * (d * d), 40 * (d * d))
    } else if i == 2 {
        (21780 * (n * n) - 35442 * (n * d) + 16061 * (d * d), 1805 * (d * d))
    } else {
        (270 * (n * n) - 513 * (n * d) + 268 * (d * d), 25 * (d * d))
    }
}

/// Which spline piece the progress `p = n / d` falls into.
pub open spec fn bounce_piece_index(n: int, d: int) -> int {
    if 11 * n < 4 * d {
        0
    } else if 11 * n < 8 * d {
        1
    } else if 10 * n < 9 * d {
        2
    } else {
        3
    }
}

/// The eased value of progress `n / d`, as a numerator and a denominator;
/// the progress is clamped into `[0, 1]` first.
pub open spec fn ease_spec(kind: EasingFunction, n: int, d: int) -> (int, int) {
    let c = clamp_spec(n, d);
    match kind {
        EasingFunction::QuadraticIn => (c * c, d * d),
        EasingFunction::BounceOut => bounce_piece(bounce_piece_index(c, d), c, d),
    }
}

proof fn lemma_bounce_piece_unit(n: int, d: int)
    requires
        0 <= n <= d,
        0 < d,
    ensures
        0 <= bounce_piece(bounce_piece_index(n, d), n, d).0 <= bounce_piece(
            bounce_piece_index(n, d),
            n,
            d,
        ).1,
        bounce_piece(bounce_piece_index(n, d), n, d).1 > 0,
{
    let i = bounce_piece_index(n, d);
    assert(d * d > 0 && 16 * (d * d) > 0 && 40 * (d * d) > 0 && 1805 * (d * d) > 0 && 25 * (d * d) > 0)
        by (nonlinear_arith)
        requires
            d > 0,
    ;
    if i == 0 {
        assert(0 <= 121 * (n * n) <= 16 * (d * d)) by (nonlinear_arith)
            requires
                0 <= n,
                11 * n < 4 * d,
        ;
    } else if i == 1 {
        assert(0 <= 363 * (n * n) - 396 * (n * d) + 136 * (d * d) <= 40 * (d * d)) by (nonlinear_arith)
            requires
                4 * d <= 11 * n,
                11 * n < 8 * d,
        {
            assert(4 * 363 * (363 * n * n - 396 * n * d + 136 * d * d) == (726 * n - 396 * d) * (
            726 * n - 396 * d) + 40656 * d * d);
            assert(40 * d * d - (363 * n * n - 396 * n * d + 136 * d * d) == (11 * n - 4 * d) * (
            24 * d - 33 * n));
        }
    } else if i == 2 {
        assert(0 <= 21780 * (n * n) - 35442 * (n * d) + 16061 * (d * d) <= 1805 * (d * d))
            by (nonlinear_arith)
            requires
                8 * d <= 11 * n,
                10 * n < 9 * d,
        {
            assert(4 * 21780 * (21780 * n * n - 35442 * n * d + 16061 * d * d) == (43560 * n
                - 35442 * d) * (43560 * n - 35442 * d) + 143098956 * d * d);
            assert(1805 * d * d - (21780 * n * n - 35442 * n * d + 16061 * d * d) == 198 * (11
                * n - 8 * d) * (9 * d - 10 * n));
        }
    } else {
        assert(0 <= 270 * (n * n) - 513 * (n * d) + 268 * (d * d) <= 25 * (d * d)) by (nonlinear_arith)
            requires
                9 * d <= 10 * n,
                n <= d,
        {
            assert(4 * 270 * (270 * n * n - 513 * n * d + 268 * d * d) == (540 * n - 513 * d) * (
            540 * n - 513 * d) + 26271 * d * d);
            assert(25 * d * d - (270 * n * n - 513 * n * d + 268 * d * d) == 27 * (10 * n - 9
                * d) * (d - n));
        }
    }
}

/// Maps the progress `num / den` through the easing curve `kind`.
///
/// The progress is clamped into `[0, 1]` before the curve is evaluated; the
/// result is exact and lies in `[0, 1]`.
pub fn easing_function_to_ratio(kind: EasingFunction, num: i64, den: u32) -> (r: Fraction)
    requires
        den > 0,
    ensures
        r.num == ease_spec(kind, num as int, den as int).0,
        r.den == ease_spec(kind, num as int, den as int).1,
        r.is_unit(),
        r.den <= 1805 * 0xffff_ffff * 0xffff_ffff,
{
    let d: i128 = den as i128;
    let n: i128 = if num < 0 {
        0
    } else if num as i128 > d {
        d
    } else {
        num as i128
    };
    assert(n == clamp_spec(num as int, den as int));
    assert(0 <= n * n <= d * d <= 0xffff_ffff * 0xffff_ffff) by (nonlinear_arith)
        requires
            0 <= n <= d,
            d <= 0xffff_ffff,
    ;
    assert(0 <= n * d <= 0xffff_ffff * 0xffff_ffff) by (nonlinear_arith)
        requires
            0 <= n <= d,
            d <= 0xffff_ffff,
    ;
    let nn: i128 = n * n;
    let nd: i128 = n * d;
    let dd: i128 = d * d;
    assert(nn == n * n && dd == d * d && nn <= dd && 0 <= nn);
    match kind {
        EasingFunction::QuadraticIn => {
            assert(dd > 0) by (nonlinear_arith)
                requires
                    dd == d * d,
                    d > 0,
            ;
            assert(ease_spec(kind, num as int, den as int) == (nn as int, dd as int));
            Fraction { num: nn as u128, den: dd as u128 }
        },
        EasingFunction::BounceOut => {
            proof {
                lemma_bounce_piece_unit(n as int, d as int);
            }
            let (a, b): (i128, i128) = if 11 * n < 4 * d {
                (121 * nn, 16 * dd)
            } else if 11 * n < 8 * d {
                (363 * nn - 396 * nd + 136 * dd, 40 * dd)
            } else if 10 * n < 9 * d {
                (21780 * nn - 35442 * nd + 16061 * dd, 1805 * dd)
            } else {
                (270 * nn - 513 * nd + 268 * dd, 25 * dd)
            };
            Fraction { num: a as u128, den: b as u128 }
        },
    }
}

/// The bounce-out spline is continuous: at each of its three breakpoints
/// `4/11`, `8/11` and `9/10` the two adjoining pieces give the same value.
pub proof fn lemma_bounce_out_continuous(k: int)
    requires
        k > 0,
    ensures
        ({
            let l = bounce_piece(0, 4 * k, 11 * k);
            let r = bounce_piece(1, 4 * k, 11 * k);
            l.0 * r.1 == r.0 * l.1
        }),
        ({
            let l = bounce_piece(1, 8 * k, 11 * k);
            let r = bounce_piece(2, 8 * k, 11 * k);
            l.0 * r.1 == r.0 * l.1
        }),
        ({
            let l = bounce_piece(2, 9 * k, 10 * k);
            let r = bounce_piece(3, 9 * k, 10 * k);
            l.0 * r.1 == r.0 * l.1
        }),
        bounce_piece_index(4 * k, 11 * k) == 1,
        bounce_piece_index(8 * k, 11 * k) == 2,
        bounce_piece_index(9 * k, 10 * k) == 3,
{
    let kk = k * k;
    assert(bounce_piece(0, 4 * k, 11 * k) == (1936 * kk, 1936 * kk)) by (nonlinear_arith)
        requires
            kk == k * k,
    ;
    assert(bounce_piece(1, 4 * k, 11 * k) == (4840 * kk, 4840 * kk)) by (nonlinear_arith)
        requires
            kk == k * k,
    ;
    assert(bounce_piece(1, 8 * k, 11 * k) == (4840 * kk, 4840 * kk)) by (nonlinear_arith)
        requires
            kk == k * k,
    ;
    assert(bounce_piece(2, 8 * k, 11 * k) == (218405 * kk, 218405 * kk)) by (nonlinear_arith)
        requires
            kk == k * k,
    ;
    assert(bounce_piece(2, 9 * k, 10 * k) == (180500 * kk, 180500 * kk)) by (nonlinear_arith)
        requires
            kk == k * k,
    ;
    assert(bounce_piece(3, 9 * k, 10 * k) == (2500 * kk, 2500 * kk)) by (nonlinear_arith)
        requires
            kk == k * k,
    ;
    assert(1936 * kk * (4840 * kk) == 4840 * kk * (1936 * kk)) by (nonlinear_arith);
    assert(4840 * kk * (218405 * kk) == 218405 * kk * (4840 * kk)) by (nonlinear_arith);
    assert(180500 * kk * (2500 * kk) == 2500 * kk * (180500 * kk)) by (nonlinear_arith);
}

} // verus!
