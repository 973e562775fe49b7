//! The region of interest round a footprint.

use vstd::prelude::*;

use crate::distinct::lemma_concat;
use crate::smooth_mesh::lattice::{bounds, cell_bounds, high_corner, lemma_corners, low_corner};
use crate::voxelle::{in_grid, GridRange, VoxelCoord};

verus! {

/// Lowest and highest coordinates of a region: x, y and z of each.
pub type Roi = (i32, i32, i32, i32, i32, i32);

/// Greater of two numbers.
pub open spec fn larger(a: int, b: int) -> int {
    if a > b {
        a
    } else {
        b
    }
}

/// Lesser of two numbers.
pub open spec fn smaller(a: int, b: int) -> int {
    if a < b {
        a
    } else {
        b
    }
}

/// The region: the bounds of the footprint widened by the margin, kept in the grid.
pub open spec fn region(footprint: Seq<VoxelCoord>, margin: int, grid: GridRange) -> Roi {
    let lo = low_corner(footprint.to_set());
    let hi = high_corner(footprint.to_set());
    let m = larger(margin, 0);
    (
        larger(lo.0 - m, grid.lo as int) as i32,
        larger(lo.1 - m, grid.lo as int) as i32,
        larger(lo.2 - m, grid.lo as int) as i32,
        smaller(hi.0 + m, grid.hi as int) as i32,
        smaller(hi.1 + m, grid.hi as int) as i32,
        smaller(hi.2 + m, grid.hi as int) as i32,
    )
}

/// The footprint can be widened by the margin.
pub open spec fn margin_fits(footprint: Seq<VoxelCoord>, margin: int) -> bool {
    forall|i: int|
        #![trigger footprint[i]]
        0 <= i < footprint.len() ==> {
            let m = larger(margin, 0);
            &&& i32::MIN <= footprint[i].0 - m && footprint[i].0 + m <= i32::MAX
            &&& i32::MIN <= footprint[i].1 - m && footprint[i].1 + m <= i32::MAX
            &&& i32::MIN <= footprint[i].2 - m && footprint[i].2 + m <= i32::MAX
        }
}

/// The region round a footprint; `None` for an empty one.
pub fn roi_from_footprint_margin(
    footprint: &[VoxelCoord],
    margin: i32,
    grid: GridRange,
) -> (r: Option<Roi>)
    requires
        margin_fits(footprint@, margin as int),
    ensures
        r is None <==> footprint@.len() == 0,
        r matches Some(roi) ==> roi == region(footprint@, margin as int, grid) && bounds(
            footprint@.to_set(),
            low_corner(footprint@.to_set()),
            high_corner(footprint@.to_set()),
        ),
{
    if footprint.len() == 0 {
        return None;
    }
    let (lo, hi) = cell_bounds(footprint);
    proof {
        lemma_corners(footprint@.to_set(), lo, hi);
        lemma_corner_margins(footprint@, margin as int);
    }
    let m: i32 = if margin > 0 {
        margin
    } else {
        0
    };
    let (x0, y0, z0): (i32, i32, i32) = (lo.0 - m, lo.1 - m, lo.2 - m);
    let (x1, y1, z1): (i32, i32, i32) = (hi.0 + m, hi.1 + m, hi.2 + m);
    Some(
        (
            if x0 > grid.lo {
                x0
            } else {
                grid.lo
            },
            if y0 > grid.lo {
                y0
            } else {
                grid.lo
            },
            if z0 > grid.lo {
                z0
            } else {
                grid.lo
            },
            if x1 < grid.hi {
                x1
            } else {
                grid.hi
            },
            if y1 < grid.hi {
                y1
            } else {
                grid.hi
            },
            if z1 < grid.hi {
                z1
            } else {
                grid.hi
            },
        ),
    )
}

/// Number of coordinates from `min` to `max`, none where they are the wrong way round.
pub open spec fn span(min: i32, max: i32) -> int {
    if min > max {
        0
    } else {
        max - min + 1
    }
}

/// Number of cells of a region.
pub open spec fn region_size(roi: Roi) -> int {
    span(roi.0, roi.3) * span(roi.1, roi.4) * span(roi.2, roi.5)
}

/// Number of cells of a region, zero where a bound is the wrong way round. A
/// number beyond `i64` is given as the greatest that it holds.
pub fn roi_cell_count(
    min_x: i32,
    min_y: i32,
    min_z: i32,
    max_x: i32,
    max_y: i32,
    max_z: i32,
) -> (r: i64)
    ensures
        r == smaller(
            region_size((min_x, min_y, min_z, max_x, max_y, max_z)),
            i64::MAX as int,
        ),
{
    if min_x > max_x || min_y > max_y || min_z > max_z {
        proof {
            let (w, h, d) = (span(min_x, max_x), span(min_y, max_y), span(min_z, max_z));
            assert(w * h * d == 0) by (nonlinear_arith)
                requires
                    w == 0 || h == 0 || d == 0,
            ;
        }
        return 0;
    }
    let w: i128 = max_x as i128 - min_x as i128 + 1;
    let h: i128 = max_y as i128 - min_y as i128 + 1;
    let d: i128 = max_z as i128 - min_z as i128 + 1;
    proof {
        assert(1 <= w * h <= 0x1_0000_0000 * 0x1_0000_0000) by (nonlinear_arith)
            requires
                1 <= w <= 0x1_0000_0000,
                1 <= h <= 0x1_0000_0000,
        ;
        assert(1 <= w * h * d <= 0x1_0000_0000_0000_0000 * 0x1_0000_0000) by (nonlinear_arith)
            requires
                1 <= w * h <= 0x1_0000_0000_0000_0000,
                1 <= d <= 0x1_0000_0000,
        ;
    }
    let cells: i128 = w * h * d;
    if cells > i64::MAX as i128 {
        i64::MAX
    } else {
        cells as i64
    }
}

/// The first `n` cells of a column that runs along z.
pub open spec fn column_cells(x: int, y: int, z: int, n: nat) -> Seq<VoxelCoord> {
    Seq::new(n, |i: int| (x as i32, y as i32, (z + i) as i32))
}

/// The cells of `n` columns side by side along y, each of `d` cells.
pub open spec fn slab_cells(x: int, y: int, z: int, d: nat, n: nat) -> Seq<VoxelCoord>
    decreases n,
{
    if n == 0 {
        seq![]
    } else {
        slab_cells(x, y, z, d, (n - 1) as nat) + column_cells(x, y + n - 1, z, d)
    }
}

/// The cells of `n` slabs side by side along x, each of `h` columns of `d` cells.
pub open spec fn block_cells(x: int, y: int, z: int, d: nat, h: nat, n: nat) -> Seq<VoxelCoord>
    decreases n,
{
    if n == 0 {
        seq![]
    } else {
        block_cells(x, y, z, d, h, (n - 1) as nat) + slab_cells(x + n - 1, y, z, d, h)
    }
}

/// The cells of a region, x by x, then y by y, then z by z.
pub open spec fn region_cells(roi: Roi) -> Seq<VoxelCoord> {
    block_cells(
        roi.0 as int,
        roi.1 as int,
        roi.2 as int,
        span(roi.2, roi.5) as nat,
        span(roi.1, roi.4) as nat,
        span(roi.0, roi.3) as nat,
    )
}

/// Whether a cell lies in a region.
pub open spec fn in_region(c: VoxelCoord, roi: Roi) -> bool {
    roi.0 <= c.0 <= roi.3 && roi.1 <= c.1 <= roi.4 && roi.2 <= c.2 <= roi.5
}

proof fn lemma_slab_cells(x: int, y: int, z: int, d: nat, n: nat)
    requires
        i32::MIN <= x <= i32::MAX,
        i32::MIN <= y && y + n <= i32::MAX + 1,
        i32::MIN <= z && z + d <= i32::MAX + 1,
    ensures
        slab_cells(x, y, z, d, n).no_duplicates(),
        slab_cells(x, y, z, d, n).len() == n * d,
        forall|c: VoxelCoord| #[trigger]
            slab_cells(x, y, z, d, n).contains(c) <==> c.0 == x && y <= c.1 < y + n && z <= c.2 < z
                + d,
    decreases n,
{
    if n > 0 {
        let head = slab_cells(x, y, z, d, (n - 1) as nat);
        let tail = column_cells(x, y + n - 1, z, d);
        lemma_slab_cells(x, y, z, d, (n - 1) as nat);
        assert forall|c: VoxelCoord| #[trigger] tail.contains(c) <==> c.0 == x && c.1 == y + n - 1
            && z <= c.2 < z + d by {
            if c.0 == x && c.1 == y + n - 1 && z <= c.2 < z + d {
                assert(tail[c.2 - z] == c);
            }
        }
        lemma_concat(head, tail);
        assert((n - 1) * d + d == n * d) by (nonlinear_arith);
    } else {
        assert(0 * d == 0);
    }
}

proof fn lemma_block_cells(x: int, y: int, z: int, d: nat, h: nat, n: nat)
    requires
        i32::MIN <= x && x + n <= i32::MAX + 1,
        i32::MIN <= y && y + h <= i32::MAX + 1,
        i32::MIN <= z && z + d <= i32::MAX + 1,
    ensures
        block_cells(x, y, z, d, h, n).no_duplicates(),
        block_cells(x, y, z, d, h, n).len() == n * (h * d),
        forall|c: VoxelCoord| #[trigger]
            block_cells(x, y, z, d, h, n).contains(c) <==> x <= c.0 < x + n && y <= c.1 < y + h && z
                <= c.2 < z + d,
    decreases n,
{
    if n > 0 {
        let head = block_cells(x, y, z, d, h, (n - 1) as nat);
        let tail = slab_cells(x + n - 1, y, z, d, h);
        lemma_block_cells(x, y, z, d, h, (n - 1) as nat);
        lemma_slab_cells(x + n - 1, y, z, d, h);
        lemma_concat(head, tail);
        let k = h * d;
        assert((n - 1) * k + k == n * k) by (nonlinear_arith);
    } else {
        let k = h * d;
        assert(0 * k == 0);
    }
}

/// The cells of a region are listed once each, as many as the region's size, and
/// no others.
pub proof fn law_region_cells(roi: Roi)
    ensures
        region_cells(roi).no_duplicates(),
        region_cells(roi).len() == region_size(roi),
        forall|c: VoxelCoord| #[trigger] region_cells(roi).contains(c) <==> in_region(c, roi),
{
    let (w, h, d) = (span(roi.0, roi.3), span(roi.1, roi.4), span(roi.2, roi.5));
    lemma_block_cells(roi.0 as int, roi.1 as int, roi.2 as int, d as nat, h as nat, w as nat);
    assert(w * (h * d) == w * h * d) by (nonlinear_arith);
}

/// A region lies in the grid that it was made for.
pub proof fn law_region_in_grid(footprint: Seq<VoxelCoord>, margin: int, grid: GridRange)
    requires
        bounds(
            footprint.to_set(),
            low_corner(footprint.to_set()),
            high_corner(footprint.to_set()),
        ),
        margin_fits(footprint, margin),
    ensures
        forall|c: VoxelCoord|
            in_region(c, region(footprint, margin, grid)) ==> #[trigger] in_grid(
                c,
                grid,
            ),
{
    lemma_corner_margins(footprint, margin);
}

/// A cell lies in the region exactly where it lies in the grid and on every axis
/// between some two cells of the footprint, or within the margin of one. A margin
/// below zero counts as none.
pub proof fn law_region_is_the_footprint_widened(
    footprint: Seq<VoxelCoord>,
    margin: int,
    grid: GridRange,
    c: VoxelCoord,
)
    requires
        bounds(
            footprint.to_set(),
            low_corner(footprint.to_set()),
            high_corner(footprint.to_set()),
        ),
        margin_fits(footprint, margin),
    ensures
        ({
            let m = if margin > 0 {
                margin
            } else {
                0
            };
            in_region(c, region(footprint, margin, grid)) <==> {
                &&& in_grid(c, grid)
                &&& exists|p: VoxelCoord| #[trigger] footprint.contains(p) && p.0 - m <= c.0
                &&& exists|p: VoxelCoord| #[trigger] footprint.contains(p) && c.0 <= p.0 + m
                &&& exists|p: VoxelCoord| #[trigger] footprint.contains(p) && p.1 - m <= c.1
                &&& exists|p: VoxelCoord| #[trigger] footprint.contains(p) && c.1 <= p.1 + m
                &&& exists|p: VoxelCoord| #[trigger] footprint.contains(p) && p.2 - m <= c.2
                &&& exists|p: VoxelCoord| #[trigger] footprint.contains(p) && c.2 <= p.2 + m
            }
        }),
{
    lemma_corner_margins(footprint, margin);
    let set = footprint.to_set();
    assert forall|p: VoxelCoord| #[trigger] footprint.contains(p) implies set.contains(p) by {}
    assert forall|p: VoxelCoord| #[trigger] set.contains(p) implies footprint.contains(p) by {}
}

pub(crate) proof fn lemma_corner_margins(footprint: Seq<VoxelCoord>, margin: int)
    requires
        bounds(
            footprint.to_set(),
            low_corner(footprint.to_set()),
            high_corner(footprint.to_set()),
        ),
        margin_fits(footprint, margin),
    ensures
        ({
            let lo = low_corner(footprint.to_set());
            let hi = high_corner(footprint.to_set());
            let m = larger(margin, 0);
            &&& i32::MIN <= lo.0 - m && hi.0 + m <= i32::MAX
            &&& i32::MIN <= lo.1 - m && hi.1 + m <= i32::MAX
            &&& i32::MIN <= lo.2 - m && hi.2 + m <= i32::MAX
        }),
{
    let dom = footprint.to_set();
    let lo = low_corner(dom);
    let hi = high_corner(dom);
    assert forall|c: VoxelCoord| #[trigger] dom.contains(c) implies exists|i: int|
        0 <= i < footprint.len() && #[trigger] footprint[i] == c by {
        assert(footprint.contains(c));
    }
    let a = choose|c: VoxelCoord| #[trigger] dom.contains(c) && c.0 == lo.0;
    let b = choose|c: VoxelCoord| #[trigger] dom.contains(c) && c.1 == lo.1;
    let c = choose|c: VoxelCoord| #[trigger] dom.contains(c) && c.2 == lo.2;
    let d = choose|c: VoxelCoord| #[trigger] dom.contains(c) && c.0 == hi.0;
    let e = choose|c: VoxelCoord| #[trigger] dom.contains(c) && c.1 == hi.1;
    let f = choose|c: VoxelCoord| #[trigger] dom.contains(c) && c.2 == hi.2;
    assert(footprint.contains(a) && footprint.contains(b) && footprint.contains(c));
    assert(footprint.contains(d) && footprint.contains(e) && footprint.contains(f));
}

/// The cells of a region, x by x, then y by y, then z by z.
pub fn list_region(roi: Roi) -> (out: Vec<VoxelCoord>)
    requires
        roi.3 < i32::MAX,
        roi.4 < i32::MAX,
        roi.5 < i32::MAX,
    ensures
        out@ == region_cells(roi),
{
    let mut out: Vec<VoxelCoord> = Vec::new();
    let ghost (w, h, d) = (span(roi.0, roi.3), span(roi.1, roi.4), span(roi.2, roi.5));
    let ghost (gx, gy, gz) = (roi.0 as int, roi.1 as int, roi.2 as int);
    let mut x: i32 = roi.0;
    while x <= roi.3
        invariant
            roi.3 < i32::MAX && roi.4 < i32::MAX && roi.5 < i32::MAX,
            w == span(roi.0, roi.3) && h == span(roi.1, roi.4) && d == span(roi.2, roi.5),
            gx == roi.0 && gy == roi.1 && gz == roi.2,
            0 <= x - roi.0 <= w,
            out@ == block_cells(gx, gy, gz, d as nat, h as nat, (x - roi.0) as nat),
        decreases roi.3 + 1 - x,
    {
        let ghost slabs = out@;
        let mut y: i32 = roi.1;
        assert(slabs + slab_cells(x as int, gy, gz, d as nat, 0) =~= slabs);
        while y <= roi.4
            invariant
                roi.3 < i32::MAX && roi.4 < i32::MAX && roi.5 < i32::MAX,
                w == span(roi.0, roi.3) && h == span(roi.1, roi.4) && d == span(roi.2, roi.5),
                gx == roi.0 && gy == roi.1 && gz == roi.2,
                0 <= x - roi.0 < w,
                0 <= y - roi.1 <= h,
                out@ == slabs + slab_cells(x as int, gy, gz, d as nat, (y - roi.1) as nat),
            decreases roi.4 + 1 - y,
        {
            let ghost columns = out@;
            let mut z: i32 = roi.2;
            assert(columns + column_cells(x as int, y as int, gz, 0) =~= columns);
            while z <= roi.5
                invariant
                    roi.3 < i32::MAX && roi.4 < i32::MAX && roi.5 < i32::MAX,
                    w == span(roi.0, roi.3) && h == span(roi.1, roi.4) && d == span(roi.2, roi.5),
                    gx == roi.0 && gy == roi.1 && gz == roi.2,
                    0 <= x - roi.0 < w,
                    0 <= y - roi.1 < h,
                    0 <= z - roi.2 <= d,
                    out@ == columns + column_cells(
                        x as int,
                        y as int,
                        gz,
                        (z - roi.2) as nat,
                    ),
                decreases roi.5 + 1 - z,
            {
                out.push((x, y, z));
                assert(out@ =~= columns + column_cells(
                    x as int,
                    y as int,
                    gz,
                    (z + 1 - roi.2) as nat,
                ));
                z += 1;
            }
            assert(z - roi.2 == d);
            assert(out@ =~= slabs + slab_cells(
                x as int,
                gy,
                gz,
                d as nat,
                (y + 1 - roi.1) as nat,
            ));
            y += 1;
        }
        assert(y - roi.1 == h);
        assert(out@ =~= block_cells(gx, gy, gz, d as nat, h as nat, (x + 1 - roi.0) as nat));
        x += 1;
    }
    assert(x - roi.0 == w);
    out
}

} // verus!
