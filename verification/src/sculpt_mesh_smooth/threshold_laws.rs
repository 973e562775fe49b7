//! What the thresholds of smoothing come to, and how they move with the
//! aggressiveness.

use vstd::arithmetic::mul::{lemma_mul_is_commutative, lemma_mul_is_distributive_add};
use vstd::prelude::*;

use crate::sculpt_mesh_smooth::thresholds::{
    blended_ratio, fraction, max_filled, min_filled, nearest, one, share, single, spacing,
};

verus! {

/// Aggressiveness in hundredths, at most a hundred.
pub open spec fn hundredths(aggressiveness: u32) -> int {
    if aggressiveness < 100 {
        aggressiveness as int
    } else {
        100
    }
}

proof fn lemma_spacing_fine(n: int, d: int, u: int)
    requires
        0 <= n,
        0 < d,
        0 < u,
        u == 1 || 8388608 * (d * u) <= n,
    ensures
        spacing(n, d, u) > 0,
        spacing(n, d, u) == 1 || 8388608 * (d * spacing(n, d, u)) <= n,
    decreases n - d * u,
{
    assert(d * (2 * u) == 2 * (d * u)) by (nonlinear_arith);
    assert(d * u > 0) by (nonlinear_arith)
        requires
            d > 0,
            u > 0,
    ;
    if !(n < 16777216 * (d * u)) {
        lemma_spacing_fine(n, d, 2 * u);
    }
}

/// A rounded number is off by a part in two to the power twenty-four, or by half a step.
proof fn lemma_single_error(n: int, d: int)
    requires
        0 <= n,
        0 < d,
    ensures
        0 <= single(n, d),
        -(n + 8388608 * d) <= 16777216 * (single(n, d) * d - n) <= n + 8388608 * d,
{
    let u = spacing(n, d, 1);
    lemma_spacing_fine(n, d, 1);
    let m = d * u;
    assert(m > 0) by (nonlinear_arith)
        requires
            d > 0,
            u > 0,
            m == d * u,
    ;
    let q = n / m;
    let k = nearest(n, m);
    assert(n == q * m + n % m && 0 <= n % m < m && 0 <= q) by (nonlinear_arith)
        requires
            0 <= n,
            m > 0,
            q == n / m,
    ;
    assert((q + 1) * m == q * m + m) by (nonlinear_arith);
    assert(-m <= 2 * (k * m - n) <= m);
    assert(0 <= k * u) by (nonlinear_arith)
        requires
            0 <= k,
            0 < u,
    ;
    assert(k * u * d == k * m) by (nonlinear_arith)
        requires
            m == d * u,
    ;
    if u == 1 {
        assert(m == d) by (nonlinear_arith)
            requires
                u == 1,
                m == d * u,
        ;
    }
}

/// The product of two fractions, each slightly off, is slightly off.
#[verifier::spinoff_prover]
proof fn lemma_blend_part(from: int, a: int, x: int, y: int)
    requires
        0 <= from <= 6,
        0 <= a <= 100,
        0 <= x,
        0 <= y,
        -400_000 <= 6 * x - from * one() <= 400_000,
        -14_000_000 <= 100 * y - a * one() <= 14_000_000,
    ensures
        0 <= single(x * y, one()),
        -170_000_000 <= 600 * single(x * y, one()) - from * a * one() <= 170_000_000,
{
    let o = one();
    let e = 6 * x - from * o;
    let f = 100 * y - a * o;
    let xy = x * y;
    assert(0 <= xy) by (nonlinear_arith)
        requires
            0 <= x,
            0 <= y,
            xy == x * y,
    ;
    let w = from * f + a * e;
    assert(600 * xy == o * (from * a * o + w) + e * f) by (nonlinear_arith)
        requires
            6 * x == from * o + e,
            100 * y == a * o + f,
            xy == x * y,
            w == from * f + a * e,
    ;
    assert(-124_000_000 <= w <= 124_000_000) by (nonlinear_arith)
        requires
            0 <= from <= 6,
            0 <= a <= 100,
            -400_000 <= e <= 400_000,
            -14_000_000 <= f <= 14_000_000,
            w == from * f + a * e,
    ;
    assert(-5_600_000_000_000 <= e * f <= 5_600_000_000_000) by (nonlinear_arith)
        requires
            -400_000 <= e <= 400_000,
            -14_000_000 <= f <= 14_000_000,
    ;
    let g = from * a * o;
    assert(0 <= g <= 600 * o) by (nonlinear_arith)
        requires
            0 <= from <= 6,
            0 <= a <= 100,
            o > 0,
            g == from * a * o,
    ;
    assert(o * (g + w) == o * g + o * w) by (nonlinear_arith);
    let s = single(xy, o);
    lemma_single_error(xy, o);
    assert(o == 1099511627776);
    assert(600 * xy == 1099511627776 * g + 1099511627776 * w + e * f);
    assert(s * o == 1099511627776 * s);
}

/// The ratio is that on the straight line between its ends, give or take a rounding.
#[verifier::spinoff_prover]
proof fn lemma_blended(from: int, to: int, aggressiveness: u32)
    requires
        0 <= from <= 6,
        0 <= to <= 6,
    ensures
        0 <= blended_ratio(from, to, aggressiveness),
        ({
            let a = hundredths(aggressiveness);
            -400_000_000 <= 600 * blended_ratio(from, to, aggressiveness) - (from * (100 - a) + to
                * a) * one() <= 400_000_000
        }),
{
    let o = one();
    let a = hundredths(aggressiveness);
    let t = fraction(aggressiveness);
    lemma_single_error(a * o, 100);
    assert(-6_600_000 <= 100 * t - a * o <= 6_600_000);
    let left = if t < o {
        o - t
    } else {
        0
    };
    let rest = single(left, 1);
    lemma_single_error(left, 1);
    assert(-14_000_000 <= 100 * rest - (100 - a) * o <= 14_000_000);
    let low = single(from * o, 6);
    let high = single(to * o, 6);
    lemma_single_error(from * o, 6);
    lemma_single_error(to * o, 6);
    lemma_blend_part(from, 100 - a, low, rest);
    lemma_blend_part(to, a, high, t);
    let p = single(low * rest, o);
    let q = single(high * t, o);
    let g = from * (100 - a);
    let h = to * a;
    assert(0 <= g <= 600 && 0 <= h <= 600 && g + h <= 600) by (nonlinear_arith)
        requires
            0 <= from <= 6,
            0 <= to <= 6,
            0 <= a <= 100,
            g == from * (100 - a),
            h == to * a,
    ;
    assert((g + h) * o == g * o + h * o) by (nonlinear_arith);
    assert(g * o == 1099511627776 * g && h * o == 1099511627776 * h);
    lemma_single_error(p + q, 1);
}

/// A clearly greater ratio of as many neighbours is a greater share.
proof fn lemma_shares_apart(r: int, s: int, neighbor_count: int)
    requires
        0 <= s,
        s + 1_800_000_000 <= r <= one(),
        0 < neighbor_count,
    ensures
        0 <= share(s, neighbor_count) < share(r, neighbor_count),
{
    let o = one();
    let c = single(neighbor_count * o, 1);
    lemma_single_error(neighbor_count * o, 1);
    assert(2 * c >= o);
    assert(0 <= s * c && s * c + 1_800_000_000 * c <= r * c && r * c <= o * c) by (nonlinear_arith)
        requires
            0 <= s,
            s + 1_800_000_000 <= r <= o,
            0 <= c,
    ;
    lemma_single_error(r * c, o);
    lemma_single_error(s * c, o);
    assert(o * c == 1099511627776 * c);
    let (x, y) = (single(r * c, o), single(s * c, o));
    assert(x * o == 1099511627776 * x && y * o == 1099511627776 * y);
}

/// More aggressive smoothing fills an empty cell from no more neighbours, and empties
/// a filled one up to no fewer.
pub proof fn law_thresholds_move_together(neighbor_count: int, less: u32, more: u32)
    requires
        0 <= neighbor_count,
        less <= more,
    ensures
        min_filled(neighbor_count, more) <= min_filled(neighbor_count, less),
        max_filled(neighbor_count, less) <= max_filled(neighbor_count, more),
{
    let (a, b) = (hundredths(less), hundredths(more));
    if neighbor_count == 0 {
        lemma_nothing_to_share(blended_ratio(5, 4, less));
        lemma_nothing_to_share(blended_ratio(5, 4, more));
        lemma_nothing_to_share(blended_ratio(1, 2, less));
        lemma_nothing_to_share(blended_ratio(1, 2, more));
    } else if a < b {
        lemma_blended(5, 4, less);
        lemma_blended(5, 4, more);
        lemma_blended(1, 2, less);
        lemma_blended(1, 2, more);
        lemma_shares_apart(
            blended_ratio(5, 4, less),
            blended_ratio(5, 4, more),
            neighbor_count,
        );
        lemma_shares_apart(
            blended_ratio(1, 2, more),
            blended_ratio(1, 2, less),
            neighbor_count,
        );
    } else {
        assert(fraction(less) == fraction(more));
    }
}

proof fn lemma_nothing_to_share(ratio: int)
    ensures
        share(ratio, 0) == 0,
{
    assert(0 * one() == 0);
    lemma_single_error(0, 1);
    assert(single(0, 1) == 0);
    assert(ratio * 0 == 0);
    lemma_single_error(0, one());
    let s = single(0, one());
    assert(s * one() == 1099511627776 * s);
}

/// A filled cell is emptied by fewer neighbours than fill an empty one, so that no
/// count of neighbours does both.
pub proof fn law_thresholds_apart(neighbor_count: int, aggressiveness: u32)
    requires
        0 < neighbor_count <= i32::MAX,
    ensures
        max_filled(neighbor_count, aggressiveness) < min_filled(neighbor_count, aggressiveness),
{
    let (r, s) = (blended_ratio(5, 4, aggressiveness), blended_ratio(1, 2, aggressiveness));
    lemma_blended(5, 4, aggressiveness);
    lemma_blended(1, 2, aggressiveness);
    lemma_shares_apart(r, s, neighbor_count);
    let o = one();
    let c = single(neighbor_count * o, 1);
    lemma_single_error(neighbor_count * o, 1);
    assert(2 * s <= o);
    assert(0 <= s * c && 2 * (s * c) <= o * c) by (nonlinear_arith)
        requires
            0 <= s,
            2 * s <= o,
            0 <= c,
    ;
    lemma_single_error(s * c, o);
    let y = single(s * c, o);
    assert(o * c == 1099511627776 * c && y * o == 1099511627776 * y);
    assert(y < i32::MAX * o);
}

/// Up to rounding a share is the ratio of the count: it is off by less than a part
/// in six hundred.
proof fn lemma_share_is_near(from: int, to: int, aggressiveness: u32, neighbor_count: int)
    requires
        0 <= from <= 5,
        0 <= to <= 5,
        0 < neighbor_count <= 2197,
    ensures
        ({
            let a = hundredths(aggressiveness);
            let s = share(blended_ratio(from, to, aggressiveness), neighbor_count);
            let exact = (from * (100 - a) + to * a) * neighbor_count;
            0 <= s && -one() < 600 * s - exact * one() < one()
        }),
{
    let o = one();
    let n = neighbor_count;
    let a = hundredths(aggressiveness);
    let part = from * (100 - a) + to * a;
    assert(0 <= part <= 500) by (nonlinear_arith)
        requires
            0 <= from <= 5,
            0 <= to <= 5,
            0 <= a <= 100,
            part == from * (100 - a) + to * a,
    ;
    let ratio = blended_ratio(from, to, aggressiveness);
    lemma_blended(from, to, aggressiveness);
    let e = 600 * ratio - part * o;
    assert(-400_000_000 <= e <= 400_000_000);
    let c = single(n * o, 1);
    lemma_single_error(n * o, 1);
    let f = c - n * o;
    assert(-65_537 * n <= f <= 65_537 * n);
    let rc = ratio * c;
    lemma_single_error_of_product(ratio, c);
    let s = single(rc, o);
    let p = part * o;
    let m = n * o;
    assert(600 * rc == (600 * ratio) * c) by (nonlinear_arith)
        requires
            rc == ratio * c,
    ;
    lemma_mul_is_distributive_add(c, p, e);
    lemma_mul_is_commutative(c, p + e);
    lemma_mul_is_commutative(c, p);
    lemma_mul_is_commutative(c, e);
    lemma_mul_is_distributive_add(p, m, f);
    lemma_mul_is_distributive_add(e, m, f);
    assert(600 * rc == p * m + p * f + e * m + e * f);
    assert(-32_768_500 * n <= part * f <= 32_768_500 * n) by (nonlinear_arith)
        requires
            0 <= part <= 500,
            -65_537 * n <= f <= 65_537 * n,
    ;
    assert(-400_000_000 * n <= e * n <= 400_000_000 * n) by (nonlinear_arith)
        requires
            -400_000_000 <= e <= 400_000_000,
            n > 0,
    ;
    assert(-400_000_000 * (65_537 * n) <= e * f <= 400_000_000 * (65_537 * n)) by (nonlinear_arith)
        requires
            -400_000_000 <= e <= 400_000_000,
            -65_537 * n <= f <= 65_537 * n,
    ;
    assert(0 <= part * n <= 500 * n) by (nonlinear_arith)
        requires
            0 <= part <= 500,
            n > 0,
    ;
    let w = part * n;
    assert(p * m == w * o * o) by (nonlinear_arith)
        requires
            p == part * o,
            m == n * o,
            w == part * n,
    ;
    assert(p * f == part * f * o) by (nonlinear_arith)
        requires
            p == part * o,
    ;
    assert(e * m == e * n * o) by (nonlinear_arith)
        requires
            m == n * o,
    ;
    assert(s * o == 1099511627776 * s);
    assert((from * (100 - a) + to * a) * neighbor_count == w);
}

proof fn lemma_single_error_of_product(x: int, y: int)
    requires
        0 <= x,
        0 <= y,
    ensures
        0 <= x * y,
        0 <= single(x * y, one()),
        -(x * y + 8388608 * one()) <= 16777216 * (single(x * y, one()) * one() - x * y) <= x * y
            + 8388608 * one(),
{
    assert(0 <= x * y) by (nonlinear_arith)
        requires
            0 <= x,
            0 <= y,
    ;
    lemma_single_error(x * y, one());
}

/// With `a` per cent of aggressiveness a count of filled neighbours reaches the fill
/// threshold where it is more than `(500 - a) / 600` of the neighbours, and does not
/// where it is less.
pub proof fn law_fill_threshold_is_a_ratio(
    neighbor_count: int,
    aggressiveness: u32,
    filled_count: int,
)
    requires
        0 < neighbor_count <= 2197,
    ensures
        ({
            let share = (500 - hundredths(aggressiveness)) * neighbor_count;
            &&& 600 * filled_count > share ==> filled_count >= min_filled(
                neighbor_count,
                aggressiveness,
            )
            &&& 600 * filled_count < share ==> filled_count < min_filled(
                neighbor_count,
                aggressiveness,
            )
        }),
{
    let a = hundredths(aggressiveness);
    lemma_share_is_near(5, 4, aggressiveness, neighbor_count);
    let s = share(blended_ratio(5, 4, aggressiveness), neighbor_count);
    assert(5 * (100 - a) + 4 * a == 500 - a);
    lemma_part_range(500 - a, neighbor_count);
}

/// With `a` per cent of aggressiveness a count of filled neighbours is within the
/// removal threshold where it is less than `(100 + a) / 600` of the neighbours, and
/// is not where it is more.
pub proof fn law_removal_threshold_is_a_ratio(
    neighbor_count: int,
    aggressiveness: u32,
    filled_count: int,
)
    requires
        0 < neighbor_count <= 2197,
    ensures
        ({
            let share = (100 + hundredths(aggressiveness)) * neighbor_count;
            &&& 600 * filled_count < share ==> filled_count <= max_filled(
                neighbor_count,
                aggressiveness,
            )
            &&& 600 * filled_count > share ==> filled_count > max_filled(
                neighbor_count,
                aggressiveness,
            )
        }),
{
    let a = hundredths(aggressiveness);
    lemma_share_is_near(1, 2, aggressiveness, neighbor_count);
    let s = share(blended_ratio(1, 2, aggressiveness), neighbor_count);
    assert(1 * (100 - a) + 2 * a == 100 + a);
    lemma_part_range(100 + a, neighbor_count);
}

proof fn lemma_part_range(part: int, n: int)
    requires
        0 <= part <= 500,
        0 < n <= 2197,
    ensures
        0 <= part * n <= 500 * 2197,
{
    assert(0 <= part * n <= 500 * 2197) by (nonlinear_arith)
        requires
            0 <= part <= 500,
            0 < n <= 2197,
    ;
}

} // verus!
