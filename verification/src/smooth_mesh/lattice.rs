//! The node lattice that a surface is extracted from.
//!
//! A node sits at the common corner of eight cells. Its value is the number of
//! those cells that are filled, so a node is outside the surface exactly where
//! its value is zero.

use vstd::arithmetic::div_mod::lemma_fundamental_div_mod_converse;
use vstd::prelude::*;

use crate::collections::{coord_map_get, coord_map_keys, entries, CoordMap};
use crate::voxelle::{blue, color_channels, green, red, MaterialId, Voxel, VoxelCoord};

verus! {

/// Colour of every filled cell.
pub type Cells = Map<VoxelCoord, u32>;

/// The cells that a map of positions in `voxels` fills, each with the colour of its voxel.
pub open spec fn cells_of(m: Map<VoxelCoord, usize>, voxels: Seq<Voxel>) -> Cells {
    Map::new(|c: VoxelCoord| m.contains_key(c), |c: VoxelCoord| voxels[m[c] as int].color)
}

/// Whether the cell at `(x, y, z)` is filled.
pub open spec fn filled(cells: Cells, x: int, y: int, z: int) -> bool {
    &&& i32::MIN <= x <= i32::MAX
    &&& i32::MIN <= y <= i32::MAX
    &&& i32::MIN <= z <= i32::MAX
    &&& cells.contains_key((x as i32, y as i32, z as i32))
}

/// One for a filled cell, zero for an empty one.
pub open spec fn fill(cells: Cells, x: int, y: int, z: int) -> int {
    if filled(cells, x, y, z) {
        1
    } else {
        0
    }
}

/// Channel `k` of a colour: red, green or blue.
pub open spec fn channel(c: u32, k: int) -> int {
    if k == 0 {
        red(c)
    } else if k == 1 {
        green(c)
    } else {
        blue(c)
    }
}

/// Channel `k` of a filled cell, zero for an empty one.
pub open spec fn cell_channel(cells: Cells, k: int, x: int, y: int, z: int) -> int {
    if filled(cells, x, y, z) {
        channel(cells[(x as i32, y as i32, z as i32)], k)
    } else {
        0
    }
}

/// Value of the node at the low corner of cell `(x, y, z)`.
#[verifier::opaque]
pub open spec fn node_value(cells: Cells, x: int, y: int, z: int) -> int {
    fill(cells, x - 1, y - 1, z - 1) + fill(cells, x, y - 1, z - 1) + fill(cells, x - 1, y, z - 1)
        + fill(cells, x, y, z - 1) + fill(cells, x - 1, y - 1, z) + fill(cells, x, y - 1, z) + fill(
        cells,
        x - 1,
        y,
        z,
    ) + fill(cells, x, y, z)
}

/// Sum of channel `k` over the filled cells round a node.
#[verifier::opaque]
pub open spec fn node_channel(cells: Cells, k: int, x: int, y: int, z: int) -> int {
    cell_channel(cells, k, x - 1, y - 1, z - 1) + cell_channel(cells, k, x, y - 1, z - 1)
        + cell_channel(cells, k, x - 1, y, z - 1) + cell_channel(cells, k, x, y, z - 1)
        + cell_channel(cells, k, x - 1, y - 1, z) + cell_channel(cells, k, x, y - 1, z)
        + cell_channel(cells, k, x - 1, y, z) + cell_channel(cells, k, x, y, z)
}

/// A colour as channel sums over `count` cells; all zero where no cell is filled.
#[derive(Clone, Copy, Debug, PartialEq, Eq, Structural)]
pub struct ColorSum {
    pub count: i32,
    pub r: i32,
    pub g: i32,
    pub b: i32,
}

/// Channel sums over the filled cells of `cells` round a node.
pub open spec fn node_color_sum(cells: Cells, x: int, y: int, z: int) -> ColorSum {
    ColorSum {
        count: node_value(cells, x, y, z) as i32,
        r: node_channel(cells, 0, x, y, z) as i32,
        g: node_channel(cells, 1, x, y, z) as i32,
        b: node_channel(cells, 2, x, y, z) as i32,
    }
}

/// Colour of a node: that of the coloured cells round it, and where there is
/// none of them, that of the occupied cells round it.
pub open spec fn node_color(color: Cells, occupancy: Cells, x: int, y: int, z: int) -> ColorSum {
    if node_value(color, x, y, z) > 0 {
        node_color_sum(color, x, y, z)
    } else {
        node_color_sum(occupancy, x, y, z)
    }
}

/// Falling slope of the node values along the three axes.
pub open spec fn node_gradient(cells: Cells, x: int, y: int, z: int) -> VoxelCoord {
    (
        (node_value(cells, x - 1, y, z) - node_value(cells, x + 1, y, z)) as i32,
        (node_value(cells, x, y - 1, z) - node_value(cells, x, y + 1, z)) as i32,
        (node_value(cells, x, y, z - 1) - node_value(cells, x, y, z + 1)) as i32,
    )
}

/// `lo` and `hi` are the tight bounds of a set of cells on every axis.
pub open spec fn bounds(dom: Set<VoxelCoord>, lo: VoxelCoord, hi: VoxelCoord) -> bool {
    &&& forall|c: VoxelCoord| #[trigger]
        dom.contains(c) ==> lo.0 <= c.0 <= hi.0 && lo.1 <= c.1 <= hi.1 && lo.2 <= c.2 <= hi.2
    &&& exists|c: VoxelCoord| #[trigger] dom.contains(c) && c.0 == lo.0
    &&& exists|c: VoxelCoord| #[trigger] dom.contains(c) && c.1 == lo.1
    &&& exists|c: VoxelCoord| #[trigger] dom.contains(c) && c.2 == lo.2
    &&& exists|c: VoxelCoord| #[trigger] dom.contains(c) && c.0 == hi.0
    &&& exists|c: VoxelCoord| #[trigger] dom.contains(c) && c.1 == hi.1
    &&& exists|c: VoxelCoord| #[trigger] dom.contains(c) && c.2 == hi.2
}

/// A set of cells has at most one pair of tight bounds.
pub proof fn law_bounds_unique(
    dom: Set<VoxelCoord>,
    lo: VoxelCoord,
    hi: VoxelCoord,
    lo2: VoxelCoord,
    hi2: VoxelCoord,
)
    requires
        bounds(dom, lo, hi),
        bounds(dom, lo2, hi2),
    ensures
        lo == lo2,
        hi == hi2,
{
}

/// Lowest coordinates of a set of cells.
pub open spec fn low_corner(dom: Set<VoxelCoord>) -> VoxelCoord {
    (choose|b: (VoxelCoord, VoxelCoord)| #[trigger] bounds(dom, b.0, b.1)).0
}

/// Highest coordinates of a set of cells.
pub open spec fn high_corner(dom: Set<VoxelCoord>) -> VoxelCoord {
    (choose|b: (VoxelCoord, VoxelCoord)| #[trigger] bounds(dom, b.0, b.1)).1
}

/// Tight bounds of a set of cells are its lowest and highest coordinates.
pub proof fn lemma_corners(dom: Set<VoxelCoord>, lo: VoxelCoord, hi: VoxelCoord)
    requires
        bounds(dom, lo, hi),
    ensures
        low_corner(dom) == lo,
        high_corner(dom) == hi,
{
    let b: (VoxelCoord, VoxelCoord) = (lo, hi);
    assert(bounds(dom, b.0, b.1));
    let p = choose|b: (VoxelCoord, VoxelCoord)| #[trigger] bounds(dom, b.0, b.1);
    law_bounds_unique(dom, p.0, p.1, lo, hi);
}

/// Number of nodes of a lattice along an axis: the cells span `lo..=hi`, and one
/// layer of nodes more than their corners stands on either side.
pub open spec fn node_count(lo: i32, hi: i32) -> int {
    hi - lo + 4
}

/// The lattice of a set of cells can be addressed: coordinates next to it fit
/// `i32` and its nodes can be counted in `usize`.
pub open spec fn lattice_fits(dom: Set<VoxelCoord>) -> bool {
    let lo = low_corner(dom);
    let hi = high_corner(dom);
    &&& i32::MIN + 4 <= lo.0 && hi.0 <= i32::MAX - 4 && node_count(lo.0, hi.0) <= i32::MAX - 2
    &&& i32::MIN + 4 <= lo.1 && hi.1 <= i32::MAX - 4 && node_count(lo.1, hi.1) <= i32::MAX - 2
    &&& i32::MIN + 4 <= lo.2 && hi.2 <= i32::MAX - 4 && node_count(lo.2, hi.2) <= i32::MAX - 2
    &&& node_count(lo.0, hi.0) * node_count(lo.1, hi.1) * node_count(lo.2, hi.2) <= usize::MAX
}

/// Node values and colours of a lattice, row by row, plane by plane.
#[derive(Debug)]
pub struct LatticeField {
    pub node_min_x: i32,
    pub node_min_y: i32,
    pub node_min_z: i32,
    pub nx: usize,
    pub ny: usize,
    pub nz: usize,
    pub values: Vec<i32>,
    pub colors: Vec<ColorSum>,
    pub bucket_material: MaterialId,
}

impl LatticeField {
    /// The field spans the lattice of `occupancy`, and holds the values of its
    /// nodes and their colours.
    pub open spec fn describes(&self, color: Cells, occupancy: Cells) -> bool {
        let lo = low_corner(occupancy.dom());
        let hi = high_corner(occupancy.dom());
        let n = self.nx * self.ny * self.nz;
        &&& bounds(occupancy.dom(), lo, hi)
        &&& lattice_fits(occupancy.dom())
        &&& self.node_min_x == lo.0 - 1
        &&& self.node_min_y == lo.1 - 1
        &&& self.node_min_z == lo.2 - 1
        &&& self.nx == node_count(lo.0, hi.0)
        &&& self.ny == node_count(lo.1, hi.1)
        &&& self.nz == node_count(lo.2, hi.2)
        &&& self.values@.len() == n
        &&& self.colors@.len() == n
        &&& forall|i: int|
            #![trigger self.values@[i]]
            0 <= i < n ==> self.values@[i] == node_value(
                occupancy,
                self.node_min_x + i % self.nx as int,
                self.node_min_y + i / self.nx as int % self.ny as int,
                self.node_min_z + i / self.nx as int / self.ny as int,
            )
        &&& forall|i: int|
            #![trigger self.colors@[i]]
            0 <= i < n ==> self.colors@[i] == node_color(
                color,
                occupancy,
                self.node_min_x + i % self.nx as int,
                self.node_min_y + i / self.nx as int % self.ny as int,
                self.node_min_z + i / self.nx as int / self.ny as int,
            )
    }
}

/// Position of node `(x, y, z)` in the node lists of a lattice.
pub open spec fn node_index(x: int, y: int, z: int, nx: int, ny: int) -> int {
    (z * ny + y) * nx + x
}

/// A node's position leads back to the node, and every node of the lattice has one.
pub proof fn law_node_index(x: int, y: int, z: int, nx: int, ny: int, nz: int)
    requires
        0 <= x < nx,
        0 <= y < ny,
        0 <= z < nz,
    ensures
        0 <= node_index(x, y, z, nx, ny) < nx * ny * nz,
        node_index(x, y, z, nx, ny) % nx == x,
        node_index(x, y, z, nx, ny) / nx % ny == y,
        node_index(x, y, z, nx, ny) / nx / ny == z,
{
    let row = z * ny + y;
    assert(0 <= row < ny * nz) by (nonlinear_arith)
        requires
            0 <= y < ny,
            0 <= z < nz,
            row == z * ny + y,
    ;
    assert(0 <= row * nx + x < nx * (ny * nz)) by (nonlinear_arith)
        requires
            0 <= x < nx,
            0 <= row < ny * nz,
    ;
    assert(nx * (ny * nz) == nx * ny * nz) by (nonlinear_arith);
    lemma_fundamental_div_mod_converse(row * nx + x, nx, row, x);
    lemma_fundamental_div_mod_converse(row, ny, z, y);
}

/// Position of node `(x, y, z)` in the node lists of a lattice.
pub fn idx(x: usize, y: usize, z: usize, nx: usize, ny: usize) -> (i: usize)
    requires
        0 < nx,
        node_index(x as int, y as int, z as int, nx as int, ny as int) <= usize::MAX,
    ensures
        i == node_index(x as int, y as int, z as int, nx as int, ny as int),
{
    proof {
        let (a, b, c, p, q) = (x as int, y as int, z as int, nx as int, ny as int);
        assert(0 <= c * q) by (nonlinear_arith)
            requires
                0 <= q,
                0 <= c,
        ;
        assert(c * q + b <= (c * q + b) * p) by (nonlinear_arith)
            requires
                0 < p,
                0 <= b,
                0 <= c * q,
        ;
    }
    (z * ny + y) * nx + x
}

/// Every position that the map holds is one in `voxels`.
pub open spec fn positions_in(m: Map<VoxelCoord, usize>, voxels: Seq<Voxel>) -> bool {
    forall|c: VoxelCoord| #[trigger] m.contains_key(c) ==> m[c] < voxels.len()
}

/// `sum` with the cell at `(x, y, z)` counted in.
fn count_cell(
    sum: ColorSum,
    m: &CoordMap,
    voxels: &[Voxel],
    x: i32,
    y: i32,
    z: i32,
) -> (r: ColorSum)
    requires
        positions_in(entries(*m), voxels@),
        0 <= sum.count <= 7,
        0 <= sum.r <= 255 * sum.count,
        0 <= sum.g <= 255 * sum.count,
        0 <= sum.b <= 255 * sum.count,
    ensures
        r.count == sum.count + fill(cells_of(entries(*m), voxels@), x as int, y as int, z as int),
        r.r == sum.r + cell_channel(
            cells_of(entries(*m), voxels@),
            0,
            x as int,
            y as int,
            z as int,
        ),
        r.g == sum.g + cell_channel(
            cells_of(entries(*m), voxels@),
            1,
            x as int,
            y as int,
            z as int,
        ),
        r.b == sum.b + cell_channel(
            cells_of(entries(*m), voxels@),
            2,
            x as int,
            y as int,
            z as int,
        ),
        0 <= r.r <= 255 * r.count,
        0 <= r.g <= 255 * r.count,
        0 <= r.b <= 255 * r.count,
{
    match coord_map_get(m, &(x, y, z)) {
        Some(i) => {
            let (cr, cg, cb) = color_channels(voxels[i].color);
            ColorSum { count: sum.count + 1, r: sum.r + cr, g: sum.g + cg, b: sum.b + cb }
        },
        None => sum,
    }
}

/// Channel sums over the filled cells round the node at the low corner of cell `(x, y, z)`.
fn node_sum(m: &CoordMap, voxels: &[Voxel], x: i32, y: i32, z: i32) -> (r: ColorSum)
    requires
        positions_in(entries(*m), voxels@),
        i32::MIN < x,
        i32::MIN < y,
        i32::MIN < z,
    ensures
        r == node_color_sum(cells_of(entries(*m), voxels@), x as int, y as int, z as int),
        r.count == node_value(cells_of(entries(*m), voxels@), x as int, y as int, z as int),
{
    proof {
        reveal(node_value);
        reveal(node_channel);
    }
    let s = ColorSum { count: 0, r: 0, g: 0, b: 0 };
    let s = count_cell(s, m, voxels, x - 1, y - 1, z - 1);
    let s = count_cell(s, m, voxels, x, y - 1, z - 1);
    let s = count_cell(s, m, voxels, x - 1, y, z - 1);
    let s = count_cell(s, m, voxels, x, y, z - 1);
    let s = count_cell(s, m, voxels, x - 1, y - 1, z);
    let s = count_cell(s, m, voxels, x, y - 1, z);
    let s = count_cell(s, m, voxels, x - 1, y, z);
    count_cell(s, m, voxels, x, y, z)
}

/// `lo` and `hi` are the tight bounds of the first `n` cells of a list.
spec fn list_bounds(keys: Seq<VoxelCoord>, n: int, lo: VoxelCoord, hi: VoxelCoord) -> bool {
    &&& forall|j: int|
        0 <= j < n ==> lo.0 <= (#[trigger] keys[j]).0 <= hi.0 && lo.1 <= keys[j].1 <= hi.1 && lo.2
            <= keys[j].2 <= hi.2
    &&& exists|j: int| 0 <= j < n && (#[trigger] keys[j]).0 == lo.0
    &&& exists|j: int| 0 <= j < n && (#[trigger] keys[j]).1 == lo.1
    &&& exists|j: int| 0 <= j < n && (#[trigger] keys[j]).2 == lo.2
    &&& exists|j: int| 0 <= j < n && (#[trigger] keys[j]).0 == hi.0
    &&& exists|j: int| 0 <= j < n && (#[trigger] keys[j]).1 == hi.1
    &&& exists|j: int| 0 <= j < n && (#[trigger] keys[j]).2 == hi.2
}

/// Tight bounds of a non-empty list of cells.
pub fn cell_bounds(keys: &[VoxelCoord]) -> (r: (VoxelCoord, VoxelCoord))
    requires
        keys@.len() > 0,
    ensures
        bounds(keys@.to_set(), r.0, r.1),
{
    let mut lo: VoxelCoord = keys[0];
    let mut hi: VoxelCoord = keys[0];
    let mut i: usize = 1;
    while i < keys.len()
        invariant
            1 <= i <= keys@.len(),
            list_bounds(keys@, i as int, lo, hi),
        decreases keys@.len() - i,
    {
        let k: VoxelCoord = keys[i];
        let ghost (lo0, hi0) = (lo, hi);
        lo = (
            if k.0 < lo.0 { k.0 } else { lo.0 },
            if k.1 < lo.1 { k.1 } else { lo.1 },
            if k.2 < lo.2 { k.2 } else { lo.2 },
        );
        hi = (
            if k.0 > hi.0 { k.0 } else { hi.0 },
            if k.1 > hi.1 { k.1 } else { hi.1 },
            if k.2 > hi.2 { k.2 } else { hi.2 },
        );
        proof {
            assert(keys@[i as int] == k);
            assert(exists|j: int| 0 <= j < i + 1 && (#[trigger] keys@[j]).0 == lo.0);
            assert(exists|j: int| 0 <= j < i + 1 && (#[trigger] keys@[j]).1 == lo.1);
            assert(exists|j: int| 0 <= j < i + 1 && (#[trigger] keys@[j]).2 == lo.2);
            assert(exists|j: int| 0 <= j < i + 1 && (#[trigger] keys@[j]).0 == hi.0);
            assert(exists|j: int| 0 <= j < i + 1 && (#[trigger] keys@[j]).1 == hi.1);
            assert(exists|j: int| 0 <= j < i + 1 && (#[trigger] keys@[j]).2 == hi.2);
        }
        i += 1;
    }
    proof {
        let dom = keys@.to_set();
        assert forall|c: VoxelCoord| #[trigger] dom.contains(c) implies lo.0 <= c.0 <= hi.0 && lo.1
            <= c.1 <= hi.1 && lo.2 <= c.2 <= hi.2 by {
            assert(keys@.contains(c));
        }
        assert forall|j: int| 0 <= j < keys@.len() implies dom.contains(#[trigger] keys@[j]) by {}
    }
    (lo, hi)
}

/// Number of nodes of a lattice along an axis.
fn nodes_along(lo: i32, hi: i32) -> (r: i128)
    requires
        lo <= hi,
    ensures
        r == node_count(lo, hi),
        0 < r <= 0x1_0000_0003,
{
    hi as i128 - lo as i128 + 4
}

/// Whether the lattice of a non-empty list of cells can be addressed.
pub fn lattice_addressable(cells: &[VoxelCoord]) -> (r: bool)
    requires
        cells@.len() > 0,
    ensures
        r == lattice_fits(cells@.to_set()),
{
    let (lo, hi) = cell_bounds(cells);
    proof {
        lemma_corners(cells@.to_set(), lo, hi);
    }
    let x: i128 = nodes_along(lo.0, hi.0);
    let y: i128 = nodes_along(lo.1, hi.1);
    let z: i128 = nodes_along(lo.2, hi.2);
    proof {
        assert(0 <= x * y <= 0x1_0000_0003 * 0x1_0000_0003) by (nonlinear_arith)
            requires
                0 < x <= 0x1_0000_0003,
                0 < y <= 0x1_0000_0003,
        ;
        assert(0 <= x * y * z <= 0x1_0000_0003 * 0x1_0000_0003 * 0x1_0000_0003)
            by (nonlinear_arith)
            requires
                0 <= x * y <= 0x1_0000_0003 * 0x1_0000_0003,
                0 < z <= 0x1_0000_0003,
        ;
    }
    let most: i128 = i32::MAX as i128 - 2;
    let inside = lo.0 >= i32::MIN + 4 && lo.1 >= i32::MIN + 4 && lo.2 >= i32::MIN + 4 && hi.0
        <= i32::MAX - 4 && hi.1 <= i32::MAX - 4 && hi.2 <= i32::MAX - 4;
    inside && x <= most && y <= most && z <= most && x * y * z <= usize::MAX as i128
}

/// Node values and colours over the lattice of the occupied cells: colours prefer
/// the coloured cells. `None` where either map is empty. The material is that of
/// one of the coloured cells.
pub fn build_lattice_field(
    color_map: &CoordMap,
    occupancy_map: &CoordMap,
    voxels: &[Voxel],
) -> (r: Option<LatticeField>)
    requires
        positions_in(entries(*color_map), voxels@),
        positions_in(entries(*occupancy_map), voxels@),
        entries(*occupancy_map).dom() != Set::<VoxelCoord>::empty() ==> lattice_fits(
            entries(*occupancy_map).dom(),
        ),
    ensures
        r is None <==> entries(*color_map).dom() == Set::<VoxelCoord>::empty() || entries(
            *occupancy_map,
        ).dom() == Set::<VoxelCoord>::empty(),
        r matches Some(f) ==> f.describes(
            cells_of(entries(*color_map), voxels@),
            cells_of(entries(*occupancy_map), voxels@),
        ),
        r matches Some(f) ==> exists|c: VoxelCoord| #[trigger]
            entries(*color_map).contains_key(c) && f.bucket_material == voxels@[entries(
                *color_map,
            )[c] as int].material,
{
    let color_keys = coord_map_keys(color_map);
    let keys = coord_map_keys(occupancy_map);
    let ghost color = cells_of(entries(*color_map), voxels@);
    let ghost occupancy = cells_of(entries(*occupancy_map), voxels@);
    proof {
        if color_keys@.len() == 0 {
            assert(entries(*color_map).dom() =~= Set::<VoxelCoord>::empty());
        } else {
            assert(entries(*color_map).dom().contains(color_keys@[0]));
        }
        if keys@.len() == 0 {
            assert(entries(*occupancy_map).dom() =~= Set::<VoxelCoord>::empty());
        } else {
            assert(entries(*occupancy_map).dom().contains(keys@[0]));
        }
    }
    if keys.len() == 0 || color_keys.len() == 0 {
        return None;
    }
    let first: VoxelCoord = color_keys[0];
    let bucket_material = match coord_map_get(color_map, &first) {
        Some(i) => voxels[i].material,
        None => MaterialId::Plastic,
    };
    let (lo, hi) = cell_bounds(keys.as_slice());
    proof {
        assert(occupancy.dom() =~= entries(*occupancy_map).dom());
        lemma_corners(occupancy.dom(), lo, hi);
    }
    let node_min_x: i32 = lo.0 - 1;
    let node_min_y: i32 = lo.1 - 1;
    let node_min_z: i32 = lo.2 - 1;
    let nx: usize = (hi.0 as i64 - lo.0 as i64 + 4) as usize;
    let ny: usize = (hi.1 as i64 - lo.1 as i64 + 4) as usize;
    let nz: usize = (hi.2 as i64 - lo.2 as i64 + 4) as usize;
    let mut values: Vec<i32> = Vec::new();
    let mut colors: Vec<ColorSum> = Vec::new();
    let mut z: usize = 0;
    assert(z * ny * nx == 0) by (nonlinear_arith)
        requires
            z == 0,
    ;
    while z < nz
        invariant
            0 <= z <= nz,
            positions_in(entries(*color_map), voxels@),
            positions_in(entries(*occupancy_map), voxels@),
            color == cells_of(entries(*color_map), voxels@),
            occupancy == cells_of(entries(*occupancy_map), voxels@),
            i32::MIN < node_min_x && node_min_x + nx <= i32::MAX,
            i32::MIN < node_min_y && node_min_y + ny <= i32::MAX,
            i32::MIN < node_min_z && node_min_z + nz <= i32::MAX,
            0 < nx <= i32::MAX && 0 < ny <= i32::MAX && nz <= i32::MAX,
            values@.len() == z * ny * nx,
            colors@.len() == values@.len(),
            nodes_done(
                values@,
                colors@,
                color,
                occupancy,
                (node_min_x, node_min_y, node_min_z),
                nx as int,
                ny as int,
            ),
        decreases nz - z,
    {
        let mut y: usize = 0;
        assert(z * ny * nx == (z * ny + 0) * nx) by (nonlinear_arith);
        while y < ny
            invariant
                z < nz,
                0 <= y <= ny,
                positions_in(entries(*color_map), voxels@),
                positions_in(entries(*occupancy_map), voxels@),
                color == cells_of(entries(*color_map), voxels@),
                occupancy == cells_of(entries(*occupancy_map), voxels@),
                i32::MIN < node_min_x && node_min_x + nx <= i32::MAX,
                i32::MIN < node_min_y && node_min_y + ny <= i32::MAX,
                i32::MIN < node_min_z && node_min_z + nz <= i32::MAX,
                0 < nx <= i32::MAX && 0 < ny <= i32::MAX && nz <= i32::MAX,
                values@.len() == (z * ny + y) * nx,
                colors@.len() == values@.len(),
                nodes_done(
                    values@,
                    colors@,
                    color,
                    occupancy,
                    (node_min_x, node_min_y, node_min_z),
                    nx as int,
                    ny as int,
                ),
            decreases ny - y,
        {
            let mut x: usize = 0;
            while x < nx
                invariant
                    z < nz,
                    y < ny,
                    0 <= x <= nx,
                    positions_in(entries(*color_map), voxels@),
                    positions_in(entries(*occupancy_map), voxels@),
                    color == cells_of(entries(*color_map), voxels@),
                    occupancy == cells_of(entries(*occupancy_map), voxels@),
                    i32::MIN < node_min_x && node_min_x + nx <= i32::MAX,
                    i32::MIN < node_min_y && node_min_y + ny <= i32::MAX,
                    i32::MIN < node_min_z && node_min_z + nz <= i32::MAX,
                    0 < nx <= i32::MAX && 0 < ny <= i32::MAX && nz <= i32::MAX,
                    values@.len() == (z * ny + y) * nx + x,
                    colors@.len() == values@.len(),
                    nodes_done(
                        values@,
                        colors@,
                        color,
                        occupancy,
                        (node_min_x, node_min_y, node_min_z),
                        nx as int,
                        ny as int,
                    ),
                decreases nx - x,
            {
                let gx: i32 = node_min_x + x as i32;
                let gy: i32 = node_min_y + y as i32;
                let gz: i32 = node_min_z + z as i32;
                let occ = node_sum(occupancy_map, voxels, gx, gy, gz);
                let own = node_sum(color_map, voxels, gx, gy, gz);
                proof {
                    law_node_index(x as int, y as int, z as int, nx as int, ny as int, nz as int);
                }
                values.push(occ.count);
                if own.count > 0 {
                    colors.push(own);
                } else {
                    colors.push(occ);
                }
                x += 1;
            }
            assert((z * ny + y) * nx + nx == (z * ny + (y + 1)) * nx) by (nonlinear_arith);
            y += 1;
        }
        assert((z * ny + ny) * nx == (z + 1) * ny * nx) by (nonlinear_arith);
        z += 1;
    }
    proof {
        assert(nz * ny * nx == nx * ny * nz) by (nonlinear_arith);
    }
    let field = LatticeField {
        node_min_x,
        node_min_y,
        node_min_z,
        nx,
        ny,
        nz,
        values,
        colors,
        bucket_material,
    };
    assert(entries(*color_map).contains_key(first));
    Some(field)
}

/// The node lists hold the values and colours of the first nodes of the lattice.
spec fn nodes_done(
    values: Seq<i32>,
    colors: Seq<ColorSum>,
    color: Cells,
    occupancy: Cells,
    node_min: VoxelCoord,
    nx: int,
    ny: int,
) -> bool {
    &&& forall|i: int|
        #![trigger values[i]]
        0 <= i < values.len() ==> values[i] == node_value(
            occupancy,
            node_min.0 + i % nx,
            node_min.1 + i / nx % ny,
            node_min.2 + i / nx / ny,
        )
    &&& forall|i: int|
        #![trigger colors[i]]
        0 <= i < colors.len() ==> colors[i] == node_color(
            color,
            occupancy,
            node_min.0 + i % nx,
            node_min.1 + i / nx % ny,
            node_min.2 + i / nx / ny,
        )
}

} // verus!
