//! How many filled neighbours fill an empty cell or keep a filled one.
//!
//! The thresholds are ratios of the neighbour count, computed as single precision
//! numbers. Here such a number is a whole multiple of `1 / GRID`, which holds all
//! numbers that occur exactly, and every operation rounds to the nearest number
//! with a 24 bit significand, a tie to the even one.

use vstd::prelude::*;

verus! {

/// Steps of the number one: two to the power forty.
pub const GRID: u128 = 1099511627776;

/// Spacing of the single precision numbers round `n / d`, found by doubling `u`.
pub open spec fn spacing(n: int, d: int, u: int) -> int
    decreases n - d * u,
{
    if d <= 0 || u <= 0 || n < 16777216 * (d * u) {
        u
    } else {
        proof {
            assert(d * (2 * u) == 2 * (d * u)) by (nonlinear_arith);
            assert(d * u > 0) by (nonlinear_arith)
                requires
                    d > 0,
                    u > 0,
            ;
        }
        spacing(n, d, 2 * u)
    }
}

/// Whole number nearest to `n / m`, the even one of two as near.
pub open spec fn nearest(n: int, m: int) -> int {
    let q = n / m;
    let r = n % m;
    if 2 * r > m || (2 * r == m && q % 2 == 1) {
        q + 1
    } else {
        q
    }
}

/// Single precision number nearest to `n / d`.
pub open spec fn single(n: int, d: int) -> int {
    let u = spacing(n, d, 1);
    nearest(n, d * u) * u
}

/// The number one.
pub open spec fn one() -> int {
    1099511627776
}

/// Aggressiveness as a fraction, at most one.
pub open spec fn fraction(aggressiveness: u32) -> int {
    single(
        (if aggressiveness < 100 {
            aggressiveness as int
        } else {
            100
        }) * one(),
        100,
    )
}

/// Ratio that runs from `from / 6` to `to / 6` with the aggressiveness.
pub open spec fn blended_ratio(from: int, to: int, aggressiveness: u32) -> int {
    let t = fraction(aggressiveness);
    let rest = single(
        if t < one() {
            one() - t
        } else {
            0
        },
        1,
    );
    single(
        single(single(from * one(), 6) * rest, one()) + single(single(to * one(), 6) * t, one()),
        1,
    )
}

/// A ratio of the neighbour count. Rounding goes by the size of the numbers, and the
/// sign of the count is carried through.
pub open spec fn share(ratio: int, neighbor_count: int) -> int {
    if neighbor_count < 0 {
        -single(ratio * single(-neighbor_count * one(), 1), one())
    } else {
        single(ratio * single(neighbor_count * one(), 1), one())
    }
}

/// A whole number kept within `i32`.
pub open spec fn capped(n: int) -> int {
    if n > i32::MAX {
        i32::MAX as int
    } else if n < i32::MIN {
        i32::MIN as int
    } else {
        n
    }
}

/// Least count of filled neighbours that fills an empty cell.
pub open spec fn min_filled(neighbor_count: int, aggressiveness: u32) -> int {
    capped((share(blended_ratio(5, 4, aggressiveness), neighbor_count) + one() - 1) / one())
}

/// Greatest count of filled neighbours that empties a filled cell.
pub open spec fn max_filled(neighbor_count: int, aggressiveness: u32) -> int {
    capped(share(blended_ratio(1, 2, aggressiveness), neighbor_count) / one())
}

/// A rounded number is at most twice the number it was rounded from, and a step.
proof fn lemma_single_bound(n: int, d: int)
    requires
        0 <= n,
        0 < d,
    ensures
        0 <= single(n, d),
        single(n, d) * d <= 2 * n + d,
{
    let u = spacing(n, d, 1);
    lemma_spacing_bound(n, d, 1);
    let m = d * u;
    assert(m > 0) by (nonlinear_arith)
        requires
            d > 0,
            u > 0,
            m == d * u,
    ;
    let q = n / m;
    let k = nearest(n, m);
    assert(0 <= q && q * m <= n) by (nonlinear_arith)
        requires
            0 <= n,
            m > 0,
            q == n / m,
    ;
    assert(0 <= k <= q + 1);
    assert(0 <= k * u) by (nonlinear_arith)
        requires
            0 <= k,
            0 < u,
    ;
    assert(k * u * d <= n + m) by (nonlinear_arith)
        requires
            0 <= k <= q + 1,
            q * m <= n,
            m == d * u,
            m > 0,
            u > 0,
            d > 0,
    {
        assert(k * u * d == k * m);
        assert(k * m <= (q + 1) * m);
    }
    assert(m <= n + d) by {
        if u == 1 {
            assert(m == d) by (nonlinear_arith)
                requires
                    u == 1,
                    m == d * u,
            ;
        }
    }
}

proof fn lemma_spacing_bound(n: int, d: int, u: int)
    requires
        0 <= n,
        0 < d,
        0 < u,
        u == 1 || d * u <= n,
    ensures
        spacing(n, d, u) > 0,
        spacing(n, d, u) == 1 || d * spacing(n, d, u) <= n,
    decreases n - d * u,
{
    assert(d * (2 * u) == 2 * (d * u)) by (nonlinear_arith);
    assert(d * u > 0) by (nonlinear_arith)
        requires
            d > 0,
            u > 0,
    ;
    if !(n < 16777216 * (d * u)) {
        lemma_spacing_bound(n, d, 2 * u);
    }
}

/// Single precision number nearest to `n / d`.
pub fn round_single(n: u128, d: u128) -> (r: u128)
    requires
        n <= 0x1000_0000_0000_0000_0000_0000_0000_0000,
        0 < d <= 1099511627776,
    ensures
        r == single(n as int, d as int),
        r * d <= 2 * n + d,
{
    let mut u: u128 = 1;
    proof {
        lemma_single_bound(n as int, d as int);
        assert(d * u == d) by (nonlinear_arith)
            requires
                u == 1,
        ;
    }
    let mut m: u128 = d;
    while n >= 16777216 * m
        invariant
            n <= 0x1000_0000_0000_0000_0000_0000_0000_0000,
            0 < d <= 1099511627776,
            0 < u <= m,
            m == d * u,
            m <= 1099511627776 || 8388608 * m <= n,
            spacing(n as int, d as int, u as int) == spacing(n as int, d as int, 1),
        decreases n - m,
    {
        proof {
            assert(d * (2 * u) == 2 * (d * u)) by (nonlinear_arith);
        }
        u = 2 * u;
        m = 2 * m;
    }
    let q: u128 = n / m;
    let rest: u128 = n % m;
    proof {
        assert(spacing(n as int, d as int, 1) == u);
        assert(single(n as int, d as int) == nearest(n as int, m as int) * u);
    }
    let k: u128 = if 2 * rest > m || (2 * rest == m && q % 2 == 1) {
        q + 1
    } else {
        q
    };
    proof {
        assert(k == nearest(n as int, m as int));
        assert(k * u <= n + u) by (nonlinear_arith)
            requires
                0 <= k <= n / m + 1,
                m == d * u,
                d > 0,
                u > 0,
                m > 0,
                n >= 0,
        {
            assert(k * u <= (n / m + 1) * u);
            assert((n / m) * m <= n);
            assert((n / m) * u <= (n / m) * m) by {
                assert(u <= m);
            }
        }
    }
    k * u
}

/// Ratio that runs from `from / 6` to `to / 6` with the aggressiveness.
fn ratio(from: u128, to: u128, aggressiveness: u32) -> (r: u128)
    requires
        from <= 6,
        to <= 6,
    ensures
        r == blended_ratio(from as int, to as int, aggressiveness),
        r <= 0x4_0000_0000_0000,
{
    let a: u128 = if aggressiveness < 100 {
        aggressiveness as u128
    } else {
        100
    };
    let t: u128 = round_single(a * GRID, 100);
    let rest: u128 = round_single(
        if t < GRID {
            GRID - t
        } else {
            0
        },
        1,
    );
    let low: u128 = round_single(from * GRID, 6);
    let high: u128 = round_single(to * GRID, 6);
    proof {
        assert(low * rest <= 0x400_0000_0000 * 0x400_0000_0000) by (nonlinear_arith)
            requires
                0 <= low <= 0x400_0000_0000,
                0 <= rest <= 0x400_0000_0000,
        ;
        assert(high * t <= 0x400_0000_0000 * 0x400_0000_0000) by (nonlinear_arith)
            requires
                0 <= high <= 0x400_0000_0000,
                0 <= t <= 0x400_0000_0000,
        ;
    }
    let p: u128 = round_single(low * rest, GRID);
    let q: u128 = round_single(high * t, GRID);
    round_single(p + q, 1)
}

/// Least count of filled neighbours that fills an empty cell, and greatest count
/// that empties a filled one, of `neighbor_count` cells round it.
pub fn smooth_thresholds(neighbor_count: i32, aggressiveness: u32) -> (r: (i32, i32))
    ensures
        r.0 == min_filled(neighbor_count as int, aggressiveness),
        r.1 == max_filled(neighbor_count as int, aggressiveness),
{
    let fill_ratio: u128 = ratio(5, 4, aggressiveness);
    let remove_ratio: u128 = ratio(1, 2, aggressiveness);
    let below: bool = neighbor_count < 0;
    let size: u128 = if below {
        (-(neighbor_count as i64)) as u128
    } else {
        neighbor_count as u128
    };
    let count: u128 = round_single(size * GRID, 1);
    let fill: u128 = share_of(fill_ratio, count);
    let remove: u128 = share_of(remove_ratio, count);
    if below {
        (fitted(true, fill / GRID), fitted(true, (remove + GRID - 1) / GRID))
    } else {
        (fitted(false, (fill + GRID - 1) / GRID), fitted(false, remove / GRID))
    }
}

/// The number of a size, below zero or not, kept within `i32`.
fn fitted(below: bool, size: u128) -> (r: i32)
    ensures
        r == capped(
            if below {
                -size
            } else {
                size as int
            },
        ),
{
    if below {
        if size > 0x8000_0000 {
            i32::MIN
        } else {
            (-(size as i64)) as i32
        }
    } else {
        if size > i32::MAX as u128 {
            i32::MAX
        } else {
            size as i32
        }
    }
}

/// A ratio of a count.
fn share_of(ratio: u128, count: u128) -> (r: u128)
    requires
        ratio <= 0x4_0000_0000_0000,
        count <= 0x200_0000_0000_0000_0000,
    ensures
        r == single(ratio * count, one()),
        r <= 0x1000_0000_0000_0000_0000_0000_0000_0000,
{
    proof {
        assert(ratio * count <= 0x4_0000_0000_0000 * 0x200_0000_0000_0000_0000) by (nonlinear_arith)
            requires
                0 <= ratio <= 0x4_0000_0000_0000,
                0 <= count <= 0x200_0000_0000_0000_0000,
        ;
    }
    round_single(ratio * count, GRID)
}

} // verus!
