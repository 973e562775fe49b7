//! Where the surface crosses the edges of the node lattice.
//!
//! The surface runs where the linearly interpolated node value is one half. Node
//! values are whole numbers from zero to eight, so every crossing lies at a whole
//! number of `1 / EDGE_UNITS` of its edge, and positions are exact in that unit.

use vstd::prelude::*;

use crate::smooth_mesh::lattice::{
    bounds, high_corner, idx, law_node_index, low_corner, node_channel, node_color, node_gradient,
    node_index, node_value, Cells, ColorSum, LatticeField,
};
use crate::voxelle::VoxelCoord;

verus! {

/// Steps that an edge of the lattice is divided into.
pub const EDGE_UNITS: i64 = 1680;

/// Offset of corner `c` of a cell from its low corner.
pub open spec fn corner_off(c: int) -> (int, int, int) {
    (
        if c == 1 || c == 2 || c == 5 || c == 6 {
            1
        } else {
            0
        },
        if c == 2 || c == 3 || c == 6 || c == 7 {
            1
        } else {
            0
        },
        if c >= 4 {
            1
        } else {
            0
        },
    )
}

/// Corners that edge `e` of a cell joins.
pub open spec fn edge_ends(e: int) -> (int, int) {
    if e < 4 {
        (e, (e + 1) % 4)
    } else if e < 8 {
        (e, 4 + (e + 1) % 4)
    } else {
        (e - 8, e - 4)
    }
}

/// Offset of corner `c` of a cell from its low corner.
pub fn corner_offset(c: usize) -> (r: (i32, i32, i32))
    requires
        c < 8,
    ensures
        r.0 == corner_off(c as int).0,
        r.1 == corner_off(c as int).1,
        r.2 == corner_off(c as int).2,
{
    match c {
        0 => (0, 0, 0),
        1 => (1, 0, 0),
        2 => (1, 1, 0),
        3 => (0, 1, 0),
        4 => (0, 0, 1),
        5 => (1, 0, 1),
        6 => (1, 1, 1),
        _ => (0, 1, 1),
    }
}

/// Corners that edge `e` of a cell joins.
pub fn edge_corners(e: usize) -> (r: (usize, usize))
    requires
        e < 12,
    ensures
        r.0 == edge_ends(e as int).0,
        r.1 == edge_ends(e as int).1,
        r.0 < 8,
        r.1 < 8,
{
    match e {
        0 => (0, 1),
        1 => (1, 2),
        2 => (2, 3),
        3 => (3, 0),
        4 => (4, 5),
        5 => (5, 6),
        6 => (6, 7),
        7 => (7, 4),
        8 => (0, 4),
        9 => (1, 5),
        10 => (2, 6),
        _ => (3, 7),
    }
}

/// Point between nodes of value `va` and `vb` where the value is one half, in
/// steps of the edge from the first: kept on the edge, and its middle where both
/// values are the same.
pub open spec fn crossing_step(va: int, vb: int) -> int {
    if va == vb {
        840
    } else {
        let step = if vb > va {
            (840 - 1680 * va) / (vb - va)
        } else {
            (1680 * va - 840) / (va - vb)
        };
        if step < 0 {
            0
        } else if step > 1680 {
            1680
        } else {
            step
        }
    }
}

/// Between an empty node and one with filled cells the interpolated value is
/// exactly one half at the crossing, and the crossing is strictly inside the edge.
pub proof fn law_crossing_is_exact(va: int, vb: int)
    requires
        0 <= va <= 8,
        0 <= vb <= 8,
        (va == 0) != (vb == 0),
    ensures
        va * 1680 + (vb - va) * crossing_step(va, vb) == 840,
        0 < crossing_step(va, vb) < 1680,
{
    let k = if va == 0 {
        vb
    } else {
        va
    };
    assert(k == 1 || k == 2 || k == 3 || k == 4 || k == 5 || k == 6 || k == 7 || k == 8);
    if va == 0 {
        assert(crossing_step(va, vb) == 840int / k);
        assert(k * (840int / k) == 840);
    } else {
        assert(crossing_step(va, vb) == (1680 * k - 840) / k);
        assert(k * ((1680 * k - 840) / k) == 1680 * k - 840);
        assert(va * 1680 + (vb - va) * crossing_step(va, vb) == 840) by (nonlinear_arith)
            requires
                vb == 0,
                va == k,
                crossing_step(va, vb) == (1680 * k - 840) / k,
                k * ((1680 * k - 840) / k) == 1680 * k - 840,
        ;
    }
}

/// Walking an edge from its other end reaches the same crossing.
pub proof fn law_crossing_is_symmetric(va: int, vb: int)
    requires
        0 <= va <= 8,
        0 <= vb <= 8,
        (va == 0) != (vb == 0),
    ensures
        crossing_step(va, vb) + crossing_step(vb, va) == 1680,
{
    let k = if va == 0 {
        vb
    } else {
        va
    };
    assert(k == 1 || k == 2 || k == 3 || k == 4 || k == 5 || k == 6 || k == 7 || k == 8);
    assert(840int / k + (1680 * k - 840) / k == 1680);
}

/// Point between nodes of value `va` and `vb` where the value is one half, in
/// steps of the edge from the first.
pub fn crossing_steps(va: i32, vb: i32) -> (r: i32)
    requires
        0 <= va <= 8,
        0 <= vb <= 8,
    ensures
        r == crossing_step(va as int, vb as int),
        0 <= r <= 1680,
{
    if va == vb {
        840
    } else if vb > va {
        let n: i32 = 840 - 1680 * va;
        if n <= 0 {
            proof {
                let (p, q) = (n as int, vb - va);
                assert(p / q <= 0 && (p < 0 ==> p / q < 0)) by (nonlinear_arith)
                    requires
                        p <= 0,
                        q > 0,
                ;
            }
            0
        } else {
            let s: i32 = n / (vb - va);
            if s > 1680 {
                1680
            } else {
                s
            }
        }
    } else {
        let s: i32 = (1680 * va - 840) / (va - vb);
        if s > 1680 {
            1680
        } else {
            s
        }
    }
}

/// A crossing of the surface with a lattice edge: the nodes of the edge with
/// their values and slopes, the step at which it is crossed, and the colour of
/// the fuller node (of the first, where both are as full).
#[derive(Clone, Copy, Debug, PartialEq, Eq)]
pub struct EdgeCrossing {
    pub node_a: VoxelCoord,
    pub node_b: VoxelCoord,
    pub value_a: i32,
    pub value_b: i32,
    pub grad_a: VoxelCoord,
    pub grad_b: VoxelCoord,
    pub step: i32,
    pub color: ColorSum,
}

/// Crossing of edge `e` of the cell whose low node is `(x, y, z)`.
pub open spec fn cell_crossing(
    color: Cells,
    occupancy: Cells,
    x: int,
    y: int,
    z: int,
    e: int,
) -> EdgeCrossing {
    let oa = corner_off(edge_ends(e).0);
    let ob = corner_off(edge_ends(e).1);
    let va = node_value(occupancy, x + oa.0, y + oa.1, z + oa.2);
    let vb = node_value(occupancy, x + ob.0, y + ob.1, z + ob.2);
    EdgeCrossing {
        node_a: ((x + oa.0) as i32, (y + oa.1) as i32, (z + oa.2) as i32),
        node_b: ((x + ob.0) as i32, (y + ob.1) as i32, (z + ob.2) as i32),
        value_a: va as i32,
        value_b: vb as i32,
        grad_a: node_gradient(occupancy, x + oa.0, y + oa.1, z + oa.2),
        grad_b: node_gradient(occupancy, x + ob.0, y + ob.1, z + ob.2),
        step: crossing_step(va, vb) as i32,
        color: if va >= vb {
            node_color(color, occupancy, x + oa.0, y + oa.1, z + oa.2)
        } else {
            node_color(color, occupancy, x + ob.0, y + ob.1, z + ob.2)
        },
    }
}

/// Value of node `(x, y, z)` of a lattice, zero beside the lattice.
pub fn sample_field(
    values: &Vec<i32>,
    x: i32,
    y: i32,
    z: i32,
    nx: usize,
    ny: usize,
    nz: usize,
) -> (r: i32)
    requires
        values@.len() == nx * ny * nz,
    ensures
        r == (if 0 <= x < nx && 0 <= y < ny && 0 <= z < nz {
            values@[node_index(x as int, y as int, z as int, nx as int, ny as int)]
        } else {
            0
        }),
{
    if x < 0 || y < 0 || z < 0 {
        return 0;
    }
    let (ux, uy, uz): (usize, usize, usize) = (x as usize, y as usize, z as usize);
    if ux >= nx || uy >= ny || uz >= nz {
        return 0;
    }
    let n: usize = values.len();
    proof {
        law_node_index(ux as int, uy as int, uz as int, nx as int, ny as int, nz as int);
        assert(n == nx * ny * nz);
    }
    values[idx(ux, uy, uz, nx, ny)]
}

/// A node value is a count of eight cells, and zero beside the lattice.
pub proof fn law_node_value_range(occupancy: Cells, x: int, y: int, z: int)
    ensures
        0 <= node_value(occupancy, x, y, z) <= 8,
{
    reveal(node_value);
}

/// Every node that is not between the second and the last but one of a lattice is empty.
pub proof fn law_lattice_border_is_empty(occupancy: Cells, x: int, y: int, z: int)
    requires
        bounds(
            occupancy.dom(),
            low_corner(occupancy.dom()),
            high_corner(occupancy.dom()),
        ),
        ({
            let lo = low_corner(occupancy.dom());
            let hi = high_corner(occupancy.dom());
            x < lo.0 || x > hi.0 + 1 || y < lo.1 || y > hi.1 + 1 || z < lo.2 || z > hi.2 + 1
        }),
    ensures
        node_value(occupancy, x, y, z) == 0,
{
    reveal(node_value);
}

impl LatticeField {
    /// Value of node `(x, y, z)` of the lattice, zero beside it.
    pub(crate) fn value_at(&self, x: i32, y: i32, z: i32, color: Ghost<Cells>, occ: Ghost<Cells>) -> (r: i32)
        requires
            self.describes(color@, occ@),
        ensures
            r == node_value(
                occ@,
                self.node_min_x + x,
                self.node_min_y + y,
                self.node_min_z + z,
            ),
            0 <= r <= 8,
    {
        let r = sample_field(&self.values, x, y, z, self.nx, self.ny, self.nz);
        proof {
            law_node_value_range(
                occ@,
                self.node_min_x + x,
                self.node_min_y + y,
                self.node_min_z + z,
            );
            if 0 <= x < self.nx && 0 <= y < self.ny && 0 <= z < self.nz {
                law_node_index(
                    x as int,
                    y as int,
                    z as int,
                    self.nx as int,
                    self.ny as int,
                    self.nz as int,
                );
            } else {
                law_lattice_border_is_empty(
                    occ@,
                    self.node_min_x + x,
                    self.node_min_y + y,
                    self.node_min_z + z,
                );
            }
        }
        r
    }

    /// Colour of node `(x, y, z)` of the lattice, none beside it. Beside the lattice
    /// that is the node's colour where only occupied cells are coloured.
    fn color_at(&self, x: i32, y: i32, z: i32, color: Ghost<Cells>, occ: Ghost<Cells>) -> (r:
        ColorSum)
        requires
            self.describes(color@, occ@),
        ensures
            color@.dom().subset_of(occ@.dom()) || node_value(
                occ@,
                self.node_min_x + x,
                self.node_min_y + y,
                self.node_min_z + z,
            ) > 0 ==> r == node_color(
                color@,
                occ@,
                self.node_min_x + x,
                self.node_min_y + y,
                self.node_min_z + z,
            ),
    {
        if x < 0 || y < 0 || z < 0 || x as usize >= self.nx || y as usize >= self.ny || z as usize
            >= self.nz {
            proof {
                law_lattice_border_is_empty(
                    occ@,
                    self.node_min_x + x,
                    self.node_min_y + y,
                    self.node_min_z + z,
                );
                if color@.dom().subset_of(occ@.dom()) {
                    lemma_no_color_beside(
                        color@,
                        occ@,
                        self.node_min_x + x,
                        self.node_min_y + y,
                        self.node_min_z + z,
                    );
                }
            }
            return ColorSum { count: 0, r: 0, g: 0, b: 0 };
        }
        proof {
            law_node_index(
                x as int,
                y as int,
                z as int,
                self.nx as int,
                self.ny as int,
                self.nz as int,
            );
        }
        self.colors[idx(x as usize, y as usize, z as usize, self.nx, self.ny)]
    }

    /// Falling slope of the node values at node `(x, y, z)` of the lattice.
    fn gradient_at(
        &self,
        x: i32,
        y: i32,
        z: i32,
        color: Ghost<Cells>,
        occ: Ghost<Cells>,
    ) -> (r: VoxelCoord)
        requires
            self.describes(color@, occ@),
            -1 <= x <= self.nx,
            -1 <= y <= self.ny,
            -1 <= z <= self.nz,
        ensures
            r == node_gradient(
                occ@,
                self.node_min_x + x,
                self.node_min_y + y,
                self.node_min_z + z,
            ),
    {
        let gx: i32 = self.value_at(x - 1, y, z, color, occ) - self.value_at(
            x + 1,
            y,
            z,
            color,
            occ,
        );
        let gy: i32 = self.value_at(x, y - 1, z, color, occ) - self.value_at(
            x,
            y + 1,
            z,
            color,
            occ,
        );
        let gz: i32 = self.value_at(x, y, z - 1, color, occ) - self.value_at(
            x,
            y,
            z + 1,
            color,
            occ,
        );
        (gx, gy, gz)
    }

    /// Crossing of edge `e` of the cell whose low node is node `(x, y, z)` of the lattice.
    pub(crate) fn crossing_at(
        &self,
        x: i32,
        y: i32,
        z: i32,
        e: usize,
        color: Ghost<Cells>,
        occ: Ghost<Cells>,
    ) -> (r: EdgeCrossing)
        requires
            self.describes(color@, occ@),
            e < 12,
            -1 <= x < self.nx,
            -1 <= y < self.ny,
            -1 <= z < self.nz,
        ensures
            ({
                let c = cell_crossing(
                    color@,
                    occ@,
                    self.node_min_x + x,
                    self.node_min_y + y,
                    self.node_min_z + z,
                    e as int,
                );
                &&& r.value_a == c.value_a && r.value_b == c.value_b
                &&& color@.dom().subset_of(occ@.dom()) || c.value_a > 0 || c.value_b > 0 ==> r == c
            }),
    {
        let (a, b) = edge_corners(e);
        let oa = corner_offset(a);
        let ob = corner_offset(b);
        let (ax, ay, az): (i32, i32, i32) = (x + oa.0, y + oa.1, z + oa.2);
        let (bx, by, bz): (i32, i32, i32) = (x + ob.0, y + ob.1, z + ob.2);
        let va: i32 = self.value_at(ax, ay, az, color, occ);
        let vb: i32 = self.value_at(bx, by, bz, color, occ);
        let color_sum = if va >= vb {
            self.color_at(ax, ay, az, color, occ)
        } else {
            self.color_at(bx, by, bz, color, occ)
        };
        EdgeCrossing {
            node_a: (self.node_min_x + ax, self.node_min_y + ay, self.node_min_z + az),
            node_b: (self.node_min_x + bx, self.node_min_y + by, self.node_min_z + bz),
            value_a: va,
            value_b: vb,
            grad_a: self.gradient_at(ax, ay, az, color, occ),
            grad_b: self.gradient_at(bx, by, bz, color, occ),
            step: crossing_steps(va, vb),
            color: color_sum,
        }
    }

    /// Whether corner `c` of the cell whose low node is `(x, y, z)` is outside the surface.
    fn corner_outside(
        &self,
        x: i32,
        y: i32,
        z: i32,
        c: usize,
        color: Ghost<Cells>,
        occ: Ghost<Cells>,
    ) -> (r: bool)
        requires
            self.describes(color@, occ@),
            c < 8,
            -1 <= x < self.nx,
            -1 <= y < self.ny,
            -1 <= z < self.nz,
        ensures
            r == outside(
                occ@,
                self.node_min_x + x,
                self.node_min_y + y,
                self.node_min_z + z,
                c as int,
            ),
    {
        let o = corner_offset(c);
        self.value_at(x + o.0, y + o.1, z + o.2, color, occ) == 0
    }

    /// Corner pattern of the cell whose low node is node `(x, y, z)` of the lattice.
    pub(crate) fn pattern_at(
        &self,
        x: i32,
        y: i32,
        z: i32,
        color: Ghost<Cells>,
        occ: Ghost<Cells>,
    ) -> (r: usize)
        requires
            self.describes(color@, occ@),
            -1 <= x < self.nx,
            -1 <= y < self.ny,
            -1 <= z < self.nz,
        ensures
            r == cell_pattern(
                occ@,
                self.node_min_x + x,
                self.node_min_y + y,
                self.node_min_z + z,
            ),
            r < 256,
    {
        let b0: usize = if self.corner_outside(x, y, z, 0, color, occ) { 1 } else { 0 };
        let b1: usize = if self.corner_outside(x, y, z, 1, color, occ) { 2 } else { 0 };
        let b2: usize = if self.corner_outside(x, y, z, 2, color, occ) { 4 } else { 0 };
        let b3: usize = if self.corner_outside(x, y, z, 3, color, occ) { 8 } else { 0 };
        let b4: usize = if self.corner_outside(x, y, z, 4, color, occ) { 16 } else { 0 };
        let b5: usize = if self.corner_outside(x, y, z, 5, color, occ) { 32 } else { 0 };
        let b6: usize = if self.corner_outside(x, y, z, 6, color, occ) { 64 } else { 0 };
        let b7: usize = if self.corner_outside(x, y, z, 7, color, occ) { 128 } else { 0 };
        b0 + b1 + b2 + b3 + b4 + b5 + b6 + b7
    }
}

/// No colour is found at a node beside the lattice.
proof fn lemma_no_color_beside(color: Cells, occupancy: Cells, x: int, y: int, z: int)
    requires
        bounds(
            occupancy.dom(),
            low_corner(occupancy.dom()),
            high_corner(occupancy.dom()),
        ),
        color.dom().subset_of(occupancy.dom()),
        ({
            let lo = low_corner(occupancy.dom());
            let hi = high_corner(occupancy.dom());
            x < lo.0 || x > hi.0 + 1 || y < lo.1 || y > hi.1 + 1 || z < lo.2 || z > hi.2 + 1
        }),
    ensures
        node_color(color, occupancy, x, y, z) == (ColorSum { count: 0, r: 0, g: 0, b: 0 }),
{
    reveal(node_value);
    reveal(node_channel);
}

/// Whether corner `c` of the cell with low node `(x, y, z)` is outside the surface.
pub open spec fn outside(occupancy: Cells, x: int, y: int, z: int, c: int) -> bool {
    node_value(
        occupancy,
        x + corner_off(c).0,
        y + corner_off(c).1,
        z + corner_off(c).2,
    ) == 0
}

/// `weight` where corner `c` is outside the surface, else zero.
pub open spec fn outside_bit(
    occupancy: Cells,
    x: int,
    y: int,
    z: int,
    c: int,
    weight: int,
) -> int {
    if outside(occupancy, x, y, z, c) {
        weight
    } else {
        0
    }
}

/// Corner pattern of the cell with low node `(x, y, z)`: one bit per corner, set
/// where the corner is outside the surface.
pub open spec fn cell_pattern(occupancy: Cells, x: int, y: int, z: int) -> int {
    outside_bit(occupancy, x, y, z, 0, 1) + outside_bit(occupancy, x, y, z, 1, 2) + outside_bit(
        occupancy,
        x,
        y,
        z,
        2,
        4,
    ) + outside_bit(occupancy, x, y, z, 3, 8) + outside_bit(occupancy, x, y, z, 4, 16)
        + outside_bit(occupancy, x, y, z, 5, 32) + outside_bit(occupancy, x, y, z, 6, 64)
        + outside_bit(occupancy, x, y, z, 7, 128)
}

} // verus!
