//! The order of scores, with all their rounding.

use crate::decimal::{
    is_rounding, lemma_grid_point, lemma_pow10_28, lemma_pow10_positive,
    lemma_ratio_rounding_error, lemma_whole, mantissa_bound, max_value, on_grid, pow10,
    representable, unit,
};
use crate::strategy::quote_engine::four_places;
use crate::strategy::score_proxy::{order_score, score_rounds};
use vstd::prelude::*;

verus! {

/// The distance between numbers of four places.
spec fn step() -> int {
    1_000_000_000_000_000_000_000_000
}

/// A number of four places up to one is a decimal.
proof fn lemma_fine(v: int)
    requires
        four_places(v),
        0 <= v <= unit(),
    ensures
        representable(v),
{
    reveal_with_fuel(pow10, 29);
    assert(pow10(24) == step());
    assert(on_grid(v, 24));
}

/// The ratios of spreads that differ are far apart.
proof fn lemma_ratios_apart(v: int, x: int, y: int, a: int, b: int)
    requires
        0 < v <= unit(),
        0 < y < x <= v,
        x - y >= step(),
        is_rounding(a, x * unit(), v),
        is_rounding(b, y * unit(), v),
    ensures
        0 <= b,
        a <= unit(),
        a - b >= step() - 1,
{
    let u = unit();
    lemma_pow10_28();
    lemma_whole(0);
    lemma_whole(1);
    assert((0 * u) * v <= y * u);
    assert(x * u <= (1 * u) * v);
    assert(0 <= x * u <= v * u && 0 <= y * u <= v * u);
    assert(u * v < (mantissa_bound() - 1) * 1 * v && -(mantissa_bound() - 1) * 1 * v < 0)
        by (nonlinear_arith)
        requires
            v > 0,
            0 < u < mantissa_bound() - 1,
    ;
    lemma_ratio_rounding_error(a, x * u, v, 0);
    lemma_ratio_rounding_error(b, y * u, v, 0);
    let d = x - y;
    assert(x * u - y * u == d * u) by (nonlinear_arith)
        requires
            d == x - y,
    ;
    assert((a - b) * v == a * v - b * v) by (nonlinear_arith);
    let g = step();
    assert(d * u >= g * v) by (nonlinear_arith)
        requires
            d >= g,
            g > 0,
            0 < v <= u,
    ;
    assert(a - b > g - 2) by (nonlinear_arith)
        requires
            (a - b) * v > d * u - 2 * v,
            d * u >= g * v,
            v > 0,
    ;
}

/// The squares of ratios that are far apart are apart.
proof fn lemma_squares_apart(a: int, b: int, p: int, q: int)
    requires
        0 <= b,
        a <= unit(),
        a - b >= step() - 1,
        is_rounding(p, a * a, unit()),
        is_rounding(q, b * b, unit()),
    ensures
        0 <= q,
        p <= unit(),
        p - q >= 10_000_000_000_000_000_000,
{
    let u = unit();
    lemma_pow10_28();
    lemma_whole(0);
    lemma_whole(1);
    assert(0 <= a * a <= u * u && 0 <= b * b <= u * u) by (nonlinear_arith)
        requires
            0 <= b <= a <= u,
    ;
    assert((0 * u) * u <= b * b);
    assert(a * a <= (1 * u) * u);
    assert(pow10(0) == 1);
    lemma_ratio_rounding_error(p, a * a, u, 0);
    lemma_ratio_rounding_error(q, b * b, u, 0);
    let d = a - b;
    let g = step() - 1;
    assert(a * a - b * b >= d * d) by (nonlinear_arith)
        requires
            d == a - b,
            0 <= b <= a,
    ;
    assert(d * d >= g * g) by (nonlinear_arith)
        requires
            d >= g,
            g >= 0,
    ;
    assert(g * g == 999_999_999_999_999_999_999_998_000_000_000_000_000_000_000_001)
        by (nonlinear_arith)
        requires
            g == 999_999_999_999_999_999_999_999,
    ;
}

/// The finest grid on which a size can be written.
proof fn lemma_grid_of(size: int, k: nat) -> (r: nat)
    requires
        k <= 28,
        0 <= size < (mantissa_bound() - 1) * pow10(k),
    ensures
        r <= k,
        size < (mantissa_bound() - 1) * pow10(r),
        r == 0 || size >= (mantissa_bound() - 1) * pow10((r - 1) as nat),
    decreases k,
{
    if k == 0 || size >= (mantissa_bound() - 1) * pow10((k - 1) as nat) {
        k
    } else {
        lemma_grid_of(size, (k - 1) as nat)
    }
}

/// Parts of a size that are apart stay in order when they are rounded.
proof fn lemma_parts_in_order(p: int, q: int, size: int, near: int, far: int)
    requires
        0 <= q,
        p <= unit(),
        p - q >= 10_000_000_000_000_000_000,
        1_000_000_000_000 <= size < max_value(),
        is_rounding(near, p * size, unit()),
        is_rounding(far, q * size, unit()),
    ensures
        far < near,
{
    let u = unit();
    lemma_pow10_28();
    let k = lemma_grid_of(size, 28);
    lemma_pow10_positive(k);
    let t = pow10(k);
    let m = mantissa_bound() - 1;
    assert(0 <= q * size <= p * size <= u * size) by (nonlinear_arith)
        requires
            0 <= q <= p <= u,
            0 <= size,
    ;
    assert(u * size < m * t * u) by (nonlinear_arith)
        requires
            size < m * t,
            u > 0,
    ;
    assert(-m * t * u < 0) by (nonlinear_arith)
        requires
            m > 0,
            t > 0,
            u > 0,
    ;
    lemma_ratio_rounding_error(near, p * size, u, k);
    lemma_ratio_rounding_error(far, q * size, u, k);
    let d = p - q;
    assert(d * size == p * size - q * size) by (nonlinear_arith)
        requires
            d == p - q,
    ;
    assert(size >= 10_000_000_000 * t) by {
        if k > 0 {
            let below = pow10((k - 1) as nat);
            lemma_pow10_positive((k - 1) as nat);
            assert(t == 10 * below);
            assert(m * below >= 10_000_000_000 * (10 * below)) by (nonlinear_arith)
                requires
                    below > 0,
                    m >= 100_000_000_000,
            ;
        }
    }
    assert(d * size >= 2 * (t * u)) by (nonlinear_arith)
        requires
            d >= 10_000_000_000_000_000_000,
            size >= 10_000_000_000 * t,
            t > 0,
            u == 10_000_000_000_000_000_000_000_000_000,
    ;
    assert(far < near) by (nonlinear_arith)
        requires
            far * u < near * u,
            u > 0,
    ;
}

/// Of two orders of the same size the closer one scores more while it is within the largest spread,
/// and never less, rounding and all: for spreads of at most four places, a largest spread of at most
/// one, and a size of at least `10^-16`.
pub proof fn law_rounding_keeps_the_order(max_spread: int, near: int, far: int, size: int)
    requires
        0 < max_spread <= unit(),
        0 <= near < far,
        four_places(max_spread) && four_places(near) && four_places(far),
        1_000_000_000_000 <= size < max_value(),
        score_rounds(max_spread, near, size),
        score_rounds(max_spread, far, size),
    ensures
        0 <= order_score(max_spread, far, size) <= order_score(max_spread, near, size),
        near < max_spread ==> order_score(max_spread, far, size) < order_score(
            max_spread,
            near,
            size,
        ),
{
    let u = unit();
    let v = max_spread;
    if near < v {
        let x = v - near;
        lemma_fine(x);
        let a = crate::decimal::quotient(x, v);
        let p = crate::decimal::product(a, a);
        if far < v {
            let y = v - far;
            lemma_fine(y);
            let b = crate::decimal::quotient(y, v);
            let q = crate::decimal::product(b, b);
            lemma_ratios_apart(v, x, y, a, b);
            lemma_squares_apart(a, b, p, q);
            lemma_parts_in_order(p, q, size, order_score(v, near, size), order_score(v, far, size));
            lemma_whole(0);
            assert(0 * u <= q * size) by (nonlinear_arith)
                requires
                    0 <= q,
                    0 <= size,
            ;
        } else {
            lemma_alone(v, x, a, p, size, order_score(v, near, size));
        }
    }
}

/// An order within the largest spread scores something.
proof fn lemma_alone(v: int, x: int, a: int, p: int, size: int, score: int)
    requires
        0 < v <= unit(),
        step() <= x <= v,
        1_000_000_000_000 <= size < max_value(),
        is_rounding(a, x * unit(), v),
        is_rounding(p, a * a, unit()),
        is_rounding(score, p * size, unit()),
    ensures
        0 < score,
{
    let u = unit();
    let g = step();
    lemma_pow10_28();
    lemma_grid_point(g, 0);
    assert(g * v <= x * u) by (nonlinear_arith)
        requires
            g <= x,
            0 < v <= u,
            0 < g,
    ;
    assert(g <= a);
    let h = 100_000_000_000_000_000_000int;
    lemma_grid_point(h, 0);
    assert(h * 1 == h && g * 1 == g);
    assert(h * u <= a * a) by (nonlinear_arith)
        requires
            g <= a,
            g * g == h * u,
            0 < g,
    ;
    assert(h <= p);
    lemma_grid_point(1, 0);
    assert(1 * u <= p * size) by (nonlinear_arith)
        requires
            h <= p,
            1_000_000_000_000 <= size,
            h * 1_000_000_000_000 >= u,
            0 < h,
    ;
    assert(1 <= score);
}

} // verus!
