//! Dual contouring over one bucket of cells: a vertex in every cell that the
//! surface passes through, and two triangles round every lattice edge that it
//! crosses.

use vstd::prelude::*;

use crate::collections::{coord_map_get, coord_map_insert, coord_map_new, entries, CoordMap};
use crate::distinct::lemma_concat;
use crate::smooth_mesh::crossing::{
    cell_crossing, cell_pattern, corner_off, edge_ends, law_lattice_border_is_empty,
    law_node_value_range, outside, EdgeCrossing,
};
use crate::smooth_mesh::lattice::{
    bounds, build_lattice_field, cells_of, filled, high_corner, lattice_fits, low_corner, node_count,
    node_value, positions_in, Cells, LatticeField,
};
use crate::smooth_mesh::surface::{as_ints, Surface, SurfaceMesh, SurfaceVertex};
use crate::voxelle::{MaterialId, Voxel, VoxelCoord};

verus! {

/// The surface passes through the cell with low node `(x, y, z)`: it has corners
/// on both sides.
pub open spec fn active(occupancy: Cells, x: int, y: int, z: int) -> bool {
    cell_pattern(occupancy, x, y, z) != 0 && cell_pattern(occupancy, x, y, z) != 255
}

/// Whether edge `e` of the cell with low node `(x, y, z)` is crossed.
pub open spec fn edge_crossed(occupancy: Cells, x: int, y: int, z: int, e: int) -> bool {
    outside(occupancy, x, y, z, edge_ends(e).0) != outside(occupancy, x, y, z, edge_ends(e).1)
}

/// Crossings of the first `n` edges of the cell with low node `(x, y, z)`.
pub open spec fn hermite(
    color: Cells,
    occupancy: Cells,
    x: int,
    y: int,
    z: int,
    n: nat,
) -> Seq<EdgeCrossing>
    decreases n,
{
    if n == 0 {
        seq![]
    } else {
        let head = hermite(color, occupancy, x, y, z, (n - 1) as nat);
        if edge_crossed(occupancy, x, y, z, n - 1) {
            head.push(cell_crossing(color, occupancy, x, y, z, n - 1))
        } else {
            head
        }
    }
}

/// An active cell has at least one crossed edge, so that its vertex is computed
/// from at least one crossing.
pub proof fn law_active_cell_is_crossed(
    color: Cells,
    occupancy: Cells,
    x: int,
    y: int,
    z: int,
)
    requires
        active(occupancy, x, y, z),
    ensures
        hermite(color, occupancy, x, y, z, 12).len() > 0,
{
    reveal_with_fuel(hermite, 13);
    assert(edge_ends(0) == (0int, 1int));
    assert(edge_ends(1) == (1int, 2int));
    assert(edge_ends(2) == (2int, 3int));
    assert(edge_ends(4) == (4int, 5int));
    assert(edge_ends(5) == (5int, 6int));
    assert(edge_ends(6) == (6int, 7int));
    assert(edge_ends(8) == (0int, 4int));
    if hermite(color, occupancy, x, y, z, 12).len() == 0 {
        assert(!edge_crossed(occupancy, x, y, z, 0));
        assert(!edge_crossed(occupancy, x, y, z, 1));
        assert(!edge_crossed(occupancy, x, y, z, 2));
        assert(!edge_crossed(occupancy, x, y, z, 4));
        assert(!edge_crossed(occupancy, x, y, z, 5));
        assert(!edge_crossed(occupancy, x, y, z, 6));
        assert(!edge_crossed(occupancy, x, y, z, 8));
    }
}

/// The first `n` cells of a row that the surface passes through.
pub open spec fn row_cells(occupancy: Cells, x: int, y: int, z: int, n: nat) -> Seq<VoxelCoord>
    decreases n,
{
    if n == 0 {
        seq![]
    } else {
        let head = row_cells(occupancy, x, y, z, (n - 1) as nat);
        if active(occupancy, x + n - 1, y, z) {
            head.push(((x + n - 1) as i32, y as i32, z as i32))
        } else {
            head
        }
    }
}

/// Cells that the surface passes through, over the first `n` rows of a plane.
pub open spec fn plane_cells(
    occupancy: Cells,
    x: int,
    y: int,
    z: int,
    w: nat,
    n: nat,
) -> Seq<VoxelCoord>
    decreases n,
{
    if n == 0 {
        seq![]
    } else {
        plane_cells(occupancy, x, y, z, w, (n - 1) as nat) + row_cells(
            occupancy,
            x,
            y + n - 1,
            z,
            w,
        )
    }
}

/// Cells that the surface passes through, over the first `n` planes.
pub open spec fn volume_cells(
    occupancy: Cells,
    x: int,
    y: int,
    z: int,
    w: nat,
    h: nat,
    n: nat,
) -> Seq<VoxelCoord>
    decreases n,
{
    if n == 0 {
        seq![]
    } else {
        volume_cells(occupancy, x, y, z, w, h, (n - 1) as nat) + plane_cells(
            occupancy,
            x,
            y,
            z + n - 1,
            w,
            h,
        )
    }
}

/// Crossings of a list of cells, cell after cell.
pub open spec fn cell_samples(
    color: Cells,
    occupancy: Cells,
    places: Seq<VoxelCoord>,
) -> Seq<EdgeCrossing>
    decreases places.len(),
{
    if places.len() == 0 {
        seq![]
    } else {
        let c = places.last();
        cell_samples(color, occupancy, places.drop_last()) + hermite(
            color,
            occupancy,
            c.0 as int,
            c.1 as int,
            c.2 as int,
            12,
        )
    }
}

/// For each crossing of a list of cells, the position of its cell in the list.
pub open spec fn cell_owners(
    color: Cells,
    occupancy: Cells,
    places: Seq<VoxelCoord>,
) -> Seq<int>
    decreases places.len(),
{
    if places.len() == 0 {
        seq![]
    } else {
        let c = places.last();
        let count = hermite(color, occupancy, c.0 as int, c.1 as int, c.2 as int, 12).len();
        cell_owners(color, occupancy, places.drop_last()) + Seq::new(
            count,
            |i: int| places.len() - 1,
        )
    }
}

/// Node `o` steps along `axis`, and `p` and `q` along the other two in their order.
pub open spec fn axis_node(axis: int, o: int, p: int, q: int) -> (int, int, int) {
    if axis == 0 {
        (o, p, q)
    } else if axis == 1 {
        (p, o, q)
    } else {
        (p, q, o)
    }
}

/// Value of a node.
pub open spec fn value_of(occupancy: Cells, n: (int, int, int)) -> int {
    node_value(occupancy, n.0, n.1, n.2)
}

/// Vertex of a cell.
pub open spec fn vertex_of(places: Seq<VoxelCoord>, c: (int, int, int)) -> int {
    places.index_of((c.0 as i32, c.1 as i32, c.2 as i32))
}

/// Two triangles between the vertices of the four cells round the lattice edge
/// that leaves node `(o, p, q)` along `axis`, where the surface crosses it. Their
/// winding turns with the end of the edge that is outside.
pub open spec fn edge_quad(
    occupancy: Cells,
    places: Seq<VoxelCoord>,
    axis: int,
    o: int,
    p: int,
    q: int,
) -> Seq<int> {
    let first_out = value_of(occupancy, axis_node(axis, o, p, q)) == 0;
    let second_out = value_of(occupancy, axis_node(axis, o + 1, p, q)) == 0;
    if first_out == second_out {
        seq![]
    } else {
        let c0 = vertex_of(places, axis_node(axis, o, p - 1, q - 1));
        let c2 = vertex_of(places, axis_node(axis, o, p, q));
        let s = vertex_of(places, axis_node(axis, o, p, q - 1));
        let t = vertex_of(places, axis_node(axis, o, p - 1, q));
        let c1 = if axis == 1 {
            t
        } else {
            s
        };
        let c3 = if axis == 1 {
            s
        } else {
            t
        };
        if first_out {
            seq![c0, c3, c2, c0, c2, c1]
        } else {
            seq![c0, c1, c2, c0, c2, c3]
        }
    }
}

/// Triangles of `n` edges side by side.
pub open spec fn line_quads(
    occupancy: Cells,
    places: Seq<VoxelCoord>,
    axis: int,
    o: int,
    p: int,
    q: int,
    n: nat,
) -> Seq<int>
    decreases n,
{
    if n == 0 {
        seq![]
    } else {
        line_quads(occupancy, places, axis, o, p, q, (n - 1) as nat) + edge_quad(
            occupancy,
            places,
            axis,
            o,
            p,
            q + n - 1,
        )
    }
}

/// Triangles of `n` lines of `nq` edges.
pub open spec fn sheet_quads(
    occupancy: Cells,
    places: Seq<VoxelCoord>,
    axis: int,
    o: int,
    p: int,
    q: int,
    nq: nat,
    n: nat,
) -> Seq<int>
    decreases n,
{
    if n == 0 {
        seq![]
    } else {
        sheet_quads(occupancy, places, axis, o, p, q, nq, (n - 1) as nat) + line_quads(
            occupancy,
            places,
            axis,
            o,
            p + n - 1,
            q,
            nq,
        )
    }
}

/// Triangles of `n` sheets of `np` lines of `nq` edges.
pub open spec fn axis_quads(
    occupancy: Cells,
    places: Seq<VoxelCoord>,
    axis: int,
    o: int,
    p: int,
    q: int,
    np: nat,
    nq: nat,
    n: nat,
) -> Seq<int>
    decreases n,
{
    if n == 0 {
        seq![]
    } else {
        axis_quads(occupancy, places, axis, o, p, q, np, nq, (n - 1) as nat) + sheet_quads(
            occupancy,
            places,
            axis,
            o + n - 1,
            p,
            q,
            nq,
            np,
        )
    }
}

/// Low node and node counts of the lattice of a set of cells.
pub open spec fn lattice_frame(dom: Set<VoxelCoord>) -> ((int, int, int), (nat, nat, nat)) {
    let lo = low_corner(dom);
    let hi = high_corner(dom);
    (
        (lo.0 - 1, lo.1 - 1, lo.2 - 1),
        (
            node_count(lo.0, hi.0) as nat,
            node_count(lo.1, hi.1) as nat,
            node_count(lo.2, hi.2) as nat,
        ),
    )
}

/// Cells that the surface of a set of cells passes through, over its lattice and
/// one layer of cells round it.
#[verifier::opaque]
pub open spec fn surface_cells(occupancy: Cells) -> Seq<VoxelCoord> {
    let (m, n) = lattice_frame(occupancy.dom());
    volume_cells(occupancy, m.0 - 1, m.1 - 1, m.2 - 1, n.0 + 1, n.1 + 1, n.2 + 1)
}

/// Triangles of the surface of a set of cells: those round the edges along x,
/// then along y, then along z.
pub open spec fn surface_quads(occupancy: Cells) -> Seq<int> {
    let (m, n) = lattice_frame(occupancy.dom());
    let places = surface_cells(occupancy);
    axis_quads(occupancy, places, 0, m.0, m.1, m.2, n.1, n.2, (n.0 - 1) as nat) + axis_quads(
        occupancy,
        places,
        1,
        m.1,
        m.0,
        m.2,
        n.0,
        n.2,
        (n.1 - 1) as nat,
    ) + axis_quads(occupancy, places, 2, m.2, m.0, m.1, n.0, n.1, (n.2 - 1) as nat)
}

/// Dual contouring surface of a set of cells.
pub open spec fn contoured(color: Cells, occupancy: Cells, material: MaterialId) -> Surface {
    let places = surface_cells(occupancy);
    Surface {
        vertices: Seq::new(places.len(), |i: int| SurfaceVertex { place: places[i], material }),
        samples: cell_samples(color, occupancy, places),
        owners: cell_owners(color, occupancy, places),
        indices: surface_quads(occupancy),
    }
}

/// Coordinates from `x` on, `n` of them, fit `i32`.
pub(crate) open spec fn fits(x: int, n: nat) -> bool {
    i32::MIN <= x && x + n <= i32::MAX
}

/// Whether a cell is one of `w * h * d` cells from `(x, y, z)` on.
pub(crate) open spec fn in_box(c: VoxelCoord, x: int, y: int, z: int, w: nat, h: nat, d: nat) -> bool {
    x <= c.0 < x + w && y <= c.1 < y + h && z <= c.2 < z + d
}

/// Whether the surface passes through a cell.
pub(crate) open spec fn active_at(occupancy: Cells, c: VoxelCoord) -> bool {
    active(occupancy, c.0 as int, c.1 as int, c.2 as int)
}

proof fn lemma_row_cells(occupancy: Cells, x: int, y: int, z: int, n: nat)
    requires
        fits(x, n) && fits(y, 1) && fits(z, 1),
    ensures
        row_cells(occupancy, x, y, z, n).no_duplicates(),
        forall|c: VoxelCoord| #[trigger]
            row_cells(occupancy, x, y, z, n).contains(c) <==> in_box(c, x, y, z, n, 1, 1)
                && active_at(occupancy, c),
    decreases n,
{
    if n > 0 {
        let head = row_cells(occupancy, x, y, z, (n - 1) as nat);
        lemma_row_cells(occupancy, x, y, z, (n - 1) as nat);
        let last: VoxelCoord = ((x + n - 1) as i32, y as i32, z as i32);
        if active(occupancy, x + n - 1, y, z) {
            assert(head.push(last) =~= head + seq![last]);
            assert(seq![last].contains(last)) by {
                assert(seq![last][0] == last);
            }
            assert(forall|c: VoxelCoord| seq![last].contains(c) ==> c == last);
            lemma_concat(head, seq![last]);
        }
        assert forall|c: VoxelCoord| #[trigger]
            row_cells(occupancy, x, y, z, n).contains(c) <==> in_box(c, x, y, z, n, 1, 1)
            && active_at(occupancy, c) by {
            assert(in_box(c, x, y, z, n, 1, 1) <==> in_box(c, x, y, z, (n - 1) as nat, 1, 1) || c
                == last);
            if active(occupancy, x + n - 1, y, z) {
                assert((head + seq![last]).contains(c) <==> head.contains(c)
                    || seq![last].contains(c));
            }
            assert(head.contains(c) <==> in_box(c, x, y, z, (n - 1) as nat, 1, 1) && active_at(
                occupancy,
                c,
            ));
        }
    }
}

proof fn lemma_plane_cells(occupancy: Cells, x: int, y: int, z: int, w: nat, n: nat)
    requires
        fits(x, w) && fits(y, n) && fits(z, 1),
    ensures
        plane_cells(occupancy, x, y, z, w, n).no_duplicates(),
        forall|c: VoxelCoord| #[trigger]
            plane_cells(occupancy, x, y, z, w, n).contains(c) <==> in_box(c, x, y, z, w, n, 1)
                && active_at(occupancy, c),
    decreases n,
{
    if n > 0 {
        let head = plane_cells(occupancy, x, y, z, w, (n - 1) as nat);
        let tail = row_cells(occupancy, x, y + n - 1, z, w);
        lemma_plane_cells(occupancy, x, y, z, w, (n - 1) as nat);
        lemma_row_cells(occupancy, x, y + n - 1, z, w);
        assert forall|c: VoxelCoord| !(head.contains(c) && #[trigger] tail.contains(c)) by {
            assert(head.contains(c) ==> in_box(c, x, y, z, w, (n - 1) as nat, 1));
        }
        lemma_concat(head, tail);
        assert forall|c: VoxelCoord| #[trigger]
            plane_cells(occupancy, x, y, z, w, n).contains(c) <==> in_box(c, x, y, z, w, n, 1)
            && active_at(occupancy, c) by {
            assert((head + tail).contains(c) <==> head.contains(c) || tail.contains(c));
            assert(head.contains(c) <==> in_box(c, x, y, z, w, (n - 1) as nat, 1) && active_at(
                occupancy,
                c,
            ));
            assert(tail.contains(c) <==> in_box(c, x, y + n - 1, z, w, 1, 1) && active_at(
                occupancy,
                c,
            ));
        }
    }
}

proof fn lemma_volume_cells(occupancy: Cells, x: int, y: int, z: int, w: nat, h: nat, n: nat)
    requires
        fits(x, w) && fits(y, h) && fits(z, n),
    ensures
        volume_cells(occupancy, x, y, z, w, h, n).no_duplicates(),
        forall|c: VoxelCoord| #[trigger]
            volume_cells(occupancy, x, y, z, w, h, n).contains(c) <==> in_box(
                c,
                x,
                y,
                z,
                w,
                h,
                n,
            ) && active_at(occupancy, c),
    decreases n,
{
    if n > 0 {
        let head = volume_cells(occupancy, x, y, z, w, h, (n - 1) as nat);
        let tail = plane_cells(occupancy, x, y, z + n - 1, w, h);
        lemma_volume_cells(occupancy, x, y, z, w, h, (n - 1) as nat);
        lemma_plane_cells(occupancy, x, y, z + n - 1, w, h);
        assert forall|c: VoxelCoord| !(head.contains(c) && #[trigger] tail.contains(c)) by {
            assert(head.contains(c) ==> in_box(c, x, y, z, w, h, (n - 1) as nat));
        }
        lemma_concat(head, tail);
        assert forall|c: VoxelCoord| #[trigger]
            volume_cells(occupancy, x, y, z, w, h, n).contains(c) <==> in_box(
            c,
            x,
            y,
            z,
            w,
            h,
            n,
        ) && active_at(occupancy, c) by {
            assert((head + tail).contains(c) <==> head.contains(c) || tail.contains(c));
            assert(head.contains(c) <==> in_box(c, x, y, z, w, h, (n - 1) as nat) && active_at(
                occupancy,
                c,
            ));
            assert(tail.contains(c) <==> in_box(c, x, y, z + n - 1, w, h, 1) && active_at(
                occupancy,
                c,
            ));
        }
    }
}

/// Corner of a cell at offset `(dx, dy, dz)`.
spec fn corner_of(d: (int, int, int)) -> int {
    let flat = if d.1 == 0 {
        d.0
    } else if d.0 == 1 {
        2
    } else {
        3
    };
    flat + 4 * d.2
}

/// The offset is one of a corner of a cell.
spec fn unit(d: (int, int, int)) -> bool {
    0 <= d.0 <= 1 && 0 <= d.1 <= 1 && 0 <= d.2 <= 1
}

/// A cell with one corner outside the surface and one inside is active.
proof fn lemma_mixed_is_active(
    occupancy: Cells,
    x: int,
    y: int,
    z: int,
    d: (int, int, int),
    e: (int, int, int),
)
    requires
        unit(d),
        unit(e),
        (node_value(occupancy, x + d.0, y + d.1, z + d.2) == 0) != (node_value(
            occupancy,
            x + e.0,
            y + e.1,
            z + e.2,
        ) == 0),
    ensures
        active(occupancy, x, y, z),
{
    let a = corner_of(d);
    let b = corner_of(e);
    assert(corner_off(a) == d);
    assert(corner_off(b) == e);
    assert(outside(occupancy, x, y, z, a) != outside(occupancy, x, y, z, b));
}

/// The four cells round a crossed edge are all active.
proof fn lemma_round_edge(occupancy: Cells, axis: int, o: int, p: int, q: int, dp: int, dq: int)
    requires
        0 <= axis <= 2,
        0 <= dp <= 1,
        0 <= dq <= 1,
        (value_of(occupancy, axis_node(axis, o, p, q)) == 0) != (value_of(
            occupancy,
            axis_node(axis, o + 1, p, q),
        ) == 0),
    ensures
        ({
            let c = axis_node(axis, o, p - dp, q - dq);
            active(occupancy, c.0, c.1, c.2)
        }),
{
    let c = axis_node(axis, o, p - dp, q - dq);
    lemma_mixed_is_active(
        occupancy,
        c.0,
        c.1,
        c.2,
        axis_node(axis, 0, dp, dq),
        axis_node(axis, 1, dp, dq),
    );
}

/// The cells that hold the vertices of a surface are all different, and round
/// every crossed edge of the lattice all four of them are there: no triangle of
/// the surface is left out.
pub proof fn law_quads_are_complete(occupancy: Cells, axis: int, o: int, p: int, q: int)
    requires
        lattice_fits(occupancy.dom()),
        bounds(
            occupancy.dom(),
            low_corner(occupancy.dom()),
            high_corner(occupancy.dom()),
        ),
        0 <= axis <= 2,
        ({
            let (m, n) = lattice_frame(occupancy.dom());
            let c = axis_node(axis, o, p, q);
            m.0 <= c.0 < m.0 + n.0 && m.1 <= c.1 < m.1 + n.1 && m.2 <= c.2 < m.2 + n.2
        }),
        (value_of(occupancy, axis_node(axis, o, p, q)) == 0) != (value_of(
            occupancy,
            axis_node(axis, o + 1, p, q),
        ) == 0),
    ensures
        surface_cells(occupancy).no_duplicates(),
        forall|dp: int, dq: int|
            0 <= dp <= 1 && 0 <= dq <= 1 ==> surface_cells(occupancy).contains(
                #[trigger] cell_at(axis_node(axis, o, p - dp, q - dq)),
            ),
{
    lemma_surface_cells(occupancy);
    assert forall|dp: int, dq: int| 0 <= dp <= 1 && 0 <= dq <= 1 implies surface_cells(
        occupancy,
    ).contains(#[trigger] cell_at(axis_node(axis, o, p - dp, q - dq))) by {
        lemma_round_edge(occupancy, axis, o, p, q, dp, dq);
    }
}

/// Cell at whole-number coordinates.
pub open spec fn cell_at(c: (int, int, int)) -> VoxelCoord {
    (c.0 as i32, c.1 as i32, c.2 as i32)
}

pub(crate) proof fn lemma_surface_cells(occupancy: Cells)
    requires
        lattice_fits(occupancy.dom()),
        bounds(
            occupancy.dom(),
            low_corner(occupancy.dom()),
            high_corner(occupancy.dom()),
        ),
    ensures
        surface_cells(occupancy).no_duplicates(),
        ({
            let (m, n) = lattice_frame(occupancy.dom());
            forall|c: VoxelCoord| #[trigger]
                surface_cells(occupancy).contains(c) <==> in_box(
                    c,
                    m.0 - 1,
                    m.1 - 1,
                    m.2 - 1,
                    n.0 + 1,
                    n.1 + 1,
                    n.2 + 1,
                ) && active_at(occupancy, c)
        }),
{
    reveal(surface_cells);
    let (m, n) = lattice_frame(occupancy.dom());
    lemma_volume_cells(occupancy, m.0 - 1, m.1 - 1, m.2 - 1, n.0 + 1, n.1 + 1, n.2 + 1);
}

/// Vertices of the surface so far, with the vertex of each cell.
struct Contour {
    vertices: Vec<SurfaceVertex>,
    samples: Vec<EdgeCrossing>,
    owners: Vec<usize>,
    cell_vertex: CoordMap,
}

impl Contour {
    /// The vertices are those of the listed cells, in order.
    spec fn holds(
        &self,
        color: Cells,
        occupancy: Cells,
        material: MaterialId,
        places: Seq<VoxelCoord>,
    ) -> bool {
        &&& self.vertices@ == Seq::new(
            places.len(),
            |i: int| SurfaceVertex { place: places[i], material },
        )
        &&& self.samples@ == cell_samples(color, occupancy, places)
        &&& as_ints(self.owners@) == cell_owners(color, occupancy, places)
        &&& indexes(entries(self.cell_vertex), places)
    }
}

/// The map gives each cell of the list its last position in the list.
spec fn indexes(m: Map<VoxelCoord, usize>, places: Seq<VoxelCoord>) -> bool {
    &&& forall|c: VoxelCoord| #[trigger] m.contains_key(c) <==> places.contains(c)
    &&& forall|c: VoxelCoord| #[trigger]
        m.contains_key(c) ==> m[c] < places.len() && places[m[c] as int] == c
}

/// Adds the vertex of the cell whose low node is node `(x, y, z)` of the lattice,
/// if the surface passes through it.
fn visit_cell(
    out: &mut Contour,
    field: &LatticeField,
    x: i32,
    y: i32,
    z: i32,
    color: Ghost<Cells>,
    occ: Ghost<Cells>,
    places: Ghost<Seq<VoxelCoord>>,
)
    requires
        field.describes(color@, occ@),
        -1 <= x < field.nx,
        -1 <= y < field.ny,
        -1 <= z < field.nz,
        old(out).holds(color@, occ@, field.bucket_material, places@),
    ensures
        ({
            let c = (
                field.node_min_x + x,
                field.node_min_y + y,
                field.node_min_z + z,
            );
            final(out).holds(
                color@,
                occ@,
                field.bucket_material,
                if active(occ@, c.0, c.1, c.2) {
                    places@.push(cell_at(c))
                } else {
                    places@
                },
            )
        }),
{
    let pattern: usize = field.pattern_at(x, y, z, color, occ);
    if pattern == 0 || pattern == 255 {
        return ;
    }
    let place: VoxelCoord = (field.node_min_x + x, field.node_min_y + y, field.node_min_z + z);
    let vi: usize = out.vertices.len();
    let ghost (gx, gy, gz) = (place.0 as int, place.1 as int, place.2 as int);
    let ghost (samples0, owners0) = (out.samples@, as_ints(out.owners@));
    let mut e: usize = 0;
    assert(samples0 + hermite(color@, occ@, gx, gy, gz, 0) =~= samples0);
    while e < 12
        invariant
            0 <= e <= 12,
            field.describes(color@, occ@),
            -1 <= x < field.nx,
            -1 <= y < field.ny,
            -1 <= z < field.nz,
            gx == field.node_min_x + x,
            gy == field.node_min_y + y,
            gz == field.node_min_z + z,
            out.vertices@ == old(out).vertices@,
            out.cell_vertex == old(out).cell_vertex,
            out.samples@ == samples0 + hermite(color@, occ@, gx, gy, gz, e as nat),
            as_ints(out.owners@) == owners0 + Seq::new(
                hermite(color@, occ@, gx, gy, gz, e as nat).len(),
                |i: int| vi as int,
            ),
        decreases 12 - e,
    {
        let c = field.crossing_at(x, y, z, e, color, occ);
        proof {
            let oa = corner_off(edge_ends(e as int).0);
            let ob = corner_off(edge_ends(e as int).1);
            law_node_value_range(occ@, gx + oa.0, gy + oa.1, gz + oa.2);
            law_node_value_range(occ@, gx + ob.0, gy + ob.1, gz + ob.2);
        }
        if (c.value_a == 0) != (c.value_b == 0) {
            let ghost before = out.owners@;
            out.samples.push(c);
            out.owners.push(vi);
            proof {
                assert(out.samples@ =~= samples0 + hermite(
                    color@,
                    occ@,
                    gx,
                    gy,
                    gz,
                    (e + 1) as nat,
                ));
                assert(as_ints(out.owners@) =~= as_ints(before).push(vi as int));
                assert(as_ints(out.owners@) =~= owners0 + Seq::new(
                    hermite(color@, occ@, gx, gy, gz, (e + 1) as nat).len(),
                    |i: int| vi as int,
                ));
            }
        }
        e += 1;
    }
    out.vertices.push(SurfaceVertex { place, material: field.bucket_material });
    coord_map_insert(&mut out.cell_vertex, place, vi);
    proof {
        let next = places@.push(place);
        assert(next.drop_last() =~= places@);
        assert(out.vertices@ =~= Seq::new(
            next.len(),
            |i: int| SurfaceVertex { place: next[i], material: field.bucket_material },
        ));
        assert(as_ints(out.owners@) =~= cell_owners(color@, occ@, next));
        assert forall|c: VoxelCoord| #[trigger]
            entries(out.cell_vertex).contains_key(c) <==> next.contains(c) by {
            if places@.contains(c) {
                let i = choose|i: int| 0 <= i < places@.len() && places@[i] == c;
                assert(next[i] == c);
            }
            assert(next[places@.len() as int] == place);
            if next.contains(c) && c != place {
                let i = choose|i: int| 0 <= i < next.len() && next[i] == c;
                assert(places@[i] == c);
            }
        }
    }
}

/// Vertices of every cell that the surface passes through.
fn visit_cells(field: &LatticeField, color: Ghost<Cells>, occ: Ghost<Cells>) -> (out: Contour)
    requires
        field.describes(color@, occ@),
    ensures
        out.holds(color@, occ@, field.bucket_material, surface_cells(occ@)),
{
    let mut out = Contour {
        vertices: Vec::new(),
        samples: Vec::new(),
        owners: Vec::new(),
        cell_vertex: coord_map_new(),
    };
    let ghost (gx, gy, gz) = (
        field.node_min_x - 1,
        field.node_min_y - 1,
        field.node_min_z - 1,
    );
    let ghost (w, h, d) = (
        (field.nx + 1) as nat,
        (field.ny + 1) as nat,
        (field.nz + 1) as nat,
    );
    let ghost mut places: Seq<VoxelCoord> = seq![];
    let mut z: i32 = -1;
    assert(out.vertices@ =~= Seq::new(
        places.len(),
        |i: int| SurfaceVertex { place: places[i], material: field.bucket_material },
    ));
    assert(as_ints(out.owners@) =~= cell_owners(color@, occ@, places));
    while z < field.nz as i32
        invariant
            field.describes(color@, occ@),
            gx == field.node_min_x - 1 && gy == field.node_min_y - 1 && gz == field.node_min_z - 1,
            w == field.nx + 1 && h == field.ny + 1 && d == field.nz + 1,
            w < i32::MAX && h < i32::MAX && d < i32::MAX,
            -1 <= z <= field.nz,
            places == volume_cells(occ@, gx, gy, gz, w, h, (z + 1) as nat),
            out.holds(color@, occ@, field.bucket_material, places),
        decreases field.nz - z,
    {
        let mut y: i32 = -1;
        let ghost planes = places;
        assert(planes + plane_cells(occ@, gx, gy, gz + z + 1, w, 0) =~= planes);
        while y < field.ny as i32
            invariant
                field.describes(color@, occ@),
                gx == field.node_min_x - 1 && gy == field.node_min_y - 1 && gz == field.node_min_z
                    - 1,
                w == field.nx + 1 && h == field.ny + 1 && d == field.nz + 1,
                w < i32::MAX && h < i32::MAX && d < i32::MAX,
                -1 <= z < field.nz,
                -1 <= y <= field.ny,
                places == planes + plane_cells(occ@, gx, gy, gz + z + 1, w, (y + 1) as nat),
                out.holds(color@, occ@, field.bucket_material, places),
            decreases field.ny - y,
        {
            let mut x: i32 = -1;
            let ghost rows = places;
            assert(rows + row_cells(occ@, gx, gy + y + 1, gz + z + 1, 0) =~= rows);
            while x < field.nx as i32
                invariant
                    field.describes(color@, occ@),
                    gx == field.node_min_x - 1 && gy == field.node_min_y - 1 && gz
                        == field.node_min_z - 1,
                    w == field.nx + 1 && h == field.ny + 1 && d == field.nz + 1,
                    w < i32::MAX && h < i32::MAX && d < i32::MAX,
                    -1 <= z < field.nz,
                    -1 <= y < field.ny,
                    -1 <= x <= field.nx,
                    places == rows + row_cells(
                        occ@,
                        gx,
                        gy + y + 1,
                        gz + z + 1,
                        (x + 1) as nat,
                    ),
                    out.holds(color@, occ@, field.bucket_material, places),
                decreases field.nx - x,
            {
                visit_cell(&mut out, field, x, y, z, color, occ, Ghost(places));
                proof {
                    let c = (
                        field.node_min_x + x,
                        field.node_min_y + y,
                        field.node_min_z + z,
                    );
                    let next = row_cells(occ@, gx, gy + y + 1, gz + z + 1, (x + 2) as nat);
                    assert(gx + (x + 2) - 1 == c.0);
                    if active(occ@, c.0, c.1, c.2) {
                        assert(rows + next =~= places.push(cell_at(c)));
                        places = places.push(cell_at(c));
                    } else {
                        assert(rows + next =~= places);
                    }
                }
                x += 1;
            }
            assert(places =~= planes + plane_cells(
                occ@,
                gx,
                gy,
                gz + z + 1,
                w,
                (y + 2) as nat,
            ));
            y += 1;
        }
        assert(places =~= volume_cells(occ@, gx, gy, gz, w, h, (z + 2) as nat));
        z += 1;
    }
    proof {
        reveal(surface_cells);
    }
    out
}

/// Position `o` steps along `axis`, and `p` and `q` along the other two in their order.
fn axis_pos(axis: usize, o: i32, p: i32, q: i32) -> (r: (i32, i32, i32))
    requires
        axis <= 2,
    ensures
        r.0 == axis_node(axis as int, o as int, p as int, q as int).0,
        r.1 == axis_node(axis as int, o as int, p as int, q as int).1,
        r.2 == axis_node(axis as int, o as int, p as int, q as int).2,
{
    if axis == 0 {
        (o, p, q)
    } else if axis == 1 {
        (p, o, q)
    } else {
        (p, q, o)
    }
}

/// Low node of the lattice along `axis`, and along the other two in their order.
spec fn axis_base(field: &LatticeField, axis: int) -> (int, int, int) {
    if axis == 0 {
        (field.node_min_x as int, field.node_min_y as int, field.node_min_z as int)
    } else if axis == 1 {
        (field.node_min_y as int, field.node_min_x as int, field.node_min_z as int)
    } else {
        (field.node_min_z as int, field.node_min_x as int, field.node_min_y as int)
    }
}

/// Vertex of the cell whose low node is at `(o, p, q)` of the lattice.
fn cell_vertex_at(
    out: &Contour,
    field: &LatticeField,
    axis: usize,
    o: i32,
    p: i32,
    q: i32,
    color: Ghost<Cells>,
    occ: Ghost<Cells>,
) -> (r: usize)
    requires
        axis <= 2,
        field.describes(color@, occ@),
        out.holds(color@, occ@, field.bucket_material, surface_cells(occ@)),
        surface_cells(occ@).no_duplicates(),
        ({
            let b = axis_base(field, axis as int);
            let c = axis_pos_abs(b, axis as int, o as int, p as int, q as int);
            surface_cells(occ@).contains(cell_at(c))
        }),
        -1 <= o,
        -1 <= p,
        -1 <= q,
        ({
            let r = axis_node(axis as int, o as int, p as int, q as int);
            r.0 < field.nx && r.1 < field.ny && r.2 < field.nz
        }),
    ensures
        r == vertex_of(
            surface_cells(occ@),
            axis_pos_abs(
                axis_base(field, axis as int),
                axis as int,
                o as int,
                p as int,
                q as int,
            ),
        ),
{
    let pos = axis_pos(axis, o, p, q);
    let place: VoxelCoord = (
        field.node_min_x + pos.0,
        field.node_min_y + pos.1,
        field.node_min_z + pos.2,
    );
    let ghost places = surface_cells(occ@);
    assert(places.contains(place));
    match coord_map_get(&out.cell_vertex, &place) {
        Some(vi) => vi,
        None => {
            assert(false);
            0
        },
    }
}

/// Node at offset `(o, p, q)` from the low node of a lattice.
spec fn axis_pos_abs(
    base: (int, int, int),
    axis: int,
    o: int,
    p: int,
    q: int,
) -> (int, int, int) {
    axis_node(axis, base.0 + o, base.1 + p, base.2 + q)
}

/// Appends the triangles round the edge that leaves node `(o, p, q)` of the
/// lattice along `axis`.
fn push_edge_quad(
    indices: &mut Vec<usize>,
    out: &Contour,
    field: &LatticeField,
    axis: usize,
    o: i32,
    p: i32,
    q: i32,
    color: Ghost<Cells>,
    occ: Ghost<Cells>,
)
    requires
        axis <= 2,
        field.describes(color@, occ@),
        out.holds(color@, occ@, field.bucket_material, surface_cells(occ@)),
        0 <= o && 0 <= p && 0 <= q,
        ({
            let r = axis_node(axis as int, o as int, p as int, q as int);
            r.0 < field.nx && r.1 < field.ny && r.2 < field.nz
        }),
    ensures
        ({
            let b = axis_base(field, axis as int);
            as_ints(final(indices)@) == as_ints(old(indices)@) + edge_quad(
                occ@,
                surface_cells(occ@),
                axis as int,
                b.0 + o,
                b.1 + p,
                b.2 + q,
            )
        }),
{
    let a = axis_pos(axis, o, p, q);
    let b = axis_pos(axis, o + 1, p, q);
    let va: i32 = field.value_at(a.0, a.1, a.2, color, occ);
    let vb: i32 = field.value_at(b.0, b.1, b.2, color, occ);
    let ghost start = as_ints(indices@);
    let ghost base = axis_base(field, axis as int);
    let ghost quad = edge_quad(
        occ@,
        surface_cells(occ@),
        axis as int,
        base.0 + o,
        base.1 + p,
        base.2 + q,
    );
    if (va == 0) == (vb == 0) {
        assert(start + quad =~= start);
        return ;
    }
    proof {
        law_quads_are_complete(occ@, axis as int, base.0 + o, base.1 + p, base.2 + q);
        assert(surface_cells(occ@).contains(
            cell_at(axis_node(axis as int, base.0 + o, base.1 + p - 1, base.2 + q - 1)),
        ));
        assert(surface_cells(occ@).contains(
            cell_at(axis_node(axis as int, base.0 + o, base.1 + p - 0, base.2 + q - 0)),
        ));
        assert(surface_cells(occ@).contains(
            cell_at(axis_node(axis as int, base.0 + o, base.1 + p - 0, base.2 + q - 1)),
        ));
        assert(surface_cells(occ@).contains(
            cell_at(axis_node(axis as int, base.0 + o, base.1 + p - 1, base.2 + q - 0)),
        ));
    }
    let c0: usize = cell_vertex_at(out, field, axis, o, p - 1, q - 1, color, occ);
    let c2: usize = cell_vertex_at(out, field, axis, o, p, q, color, occ);
    let s: usize = cell_vertex_at(out, field, axis, o, p, q - 1, color, occ);
    let t: usize = cell_vertex_at(out, field, axis, o, p - 1, q, color, occ);
    let (c1, c3): (usize, usize) = if axis == 1 {
        (t, s)
    } else {
        (s, t)
    };
    if va == 0 {
        push_quad(indices, c0, c3, c2, c1);
    } else {
        push_quad(indices, c0, c1, c2, c3);
    }
}

/// Appends the triangles `a b c` and `a c d`.
fn push_quad(indices: &mut Vec<usize>, a: usize, b: usize, c: usize, d: usize)
    ensures
        as_ints(final(indices)@) == as_ints(old(indices)@) + seq![
            a as int,
            b as int,
            c as int,
            a as int,
            c as int,
            d as int,
        ],
{
    let ghost start = as_ints(indices@);
    indices.push(a);
    indices.push(b);
    indices.push(c);
    indices.push(a);
    indices.push(c);
    indices.push(d);
    assert(as_ints(indices@) =~= start + seq![
        a as int,
        b as int,
        c as int,
        a as int,
        c as int,
        d as int,
    ]);
}

/// Appends the triangles round every edge of the lattice along `axis`; the
/// lattice has `no` nodes along it, and `np` and `nq` along the other two.
fn push_axis_quads(
    indices: &mut Vec<usize>,
    out: &Contour,
    field: &LatticeField,
    axis: usize,
    no: usize,
    np: usize,
    nq: usize,
    color: Ghost<Cells>,
    occ: Ghost<Cells>,
)
    requires
        axis <= 2,
        field.describes(color@, occ@),
        out.holds(color@, occ@, field.bucket_material, surface_cells(occ@)),
        axis_node(axis as int, no as int, np as int, nq as int) == (
            field.nx as int,
            field.ny as int,
            field.nz as int,
        ),
    ensures
        ({
            let b = axis_base(field, axis as int);
            as_ints(final(indices)@) == as_ints(old(indices)@) + axis_quads(
                occ@,
                surface_cells(occ@),
                axis as int,
                b.0,
                b.1,
                b.2,
                np as nat,
                nq as nat,
                (no - 1) as nat,
            )
        }),
{
    let ghost start = as_ints(indices@);
    let ghost b = axis_base(field, axis as int);
    let ghost k = axis as int;
    let ghost pl = surface_cells(occ@);
    let mut o: i32 = 0;
    assert(start + axis_quads(occ@, pl, k, b.0, b.1, b.2, np as nat, nq as nat, 0) =~= start);
    while (o as usize) < no - 1
        invariant
            axis <= 2,
            field.describes(color@, occ@),
            out.holds(color@, occ@, field.bucket_material, pl),
            pl == surface_cells(occ@),
            k == axis,
            b == axis_base(field, axis as int),
            axis_node(axis as int, no as int, np as int, nq as int) == (
                field.nx as int,
                field.ny as int,
                field.nz as int,
            ),
            1 <= no <= i32::MAX && np <= i32::MAX && nq <= i32::MAX,
            0 <= o <= no - 1,
            as_ints(indices@) == start + axis_quads(
                occ@,
                pl,
                k,
                b.0,
                b.1,
                b.2,
                np as nat,
                nq as nat,
                o as nat,
            ),
        decreases no - o,
    {
        let ghost sheets = as_ints(indices@);
        let mut p: i32 = 0;
        assert(sheets + sheet_quads(occ@, pl, k, b.0 + o, b.1, b.2, nq as nat, 0) =~= sheets);
        while (p as usize) < np
            invariant
                axis <= 2,
                field.describes(color@, occ@),
                out.holds(color@, occ@, field.bucket_material, pl),
                pl == surface_cells(occ@),
                k == axis,
                b == axis_base(field, axis as int),
                axis_node(axis as int, no as int, np as int, nq as int) == (
                    field.nx as int,
                    field.ny as int,
                    field.nz as int,
                ),
                no <= i32::MAX && np <= i32::MAX && nq <= i32::MAX,
                0 <= o < no - 1,
                0 <= p <= np,
                as_ints(indices@) == sheets + sheet_quads(
                    occ@,
                    pl,
                    k,
                    b.0 + o,
                    b.1,
                    b.2,
                    nq as nat,
                    p as nat,
                ),
            decreases np - p,
        {
            let ghost lines = as_ints(indices@);
            let mut q: i32 = 0;
            assert(lines + line_quads(occ@, pl, k, b.0 + o, b.1 + p, b.2, 0) =~= lines);
            while (q as usize) < nq
                invariant
                    axis <= 2,
                    field.describes(color@, occ@),
                    out.holds(color@, occ@, field.bucket_material, pl),
                    pl == surface_cells(occ@),
                    k == axis,
                    b == axis_base(field, axis as int),
                    axis_node(axis as int, no as int, np as int, nq as int) == (
                        field.nx as int,
                        field.ny as int,
                        field.nz as int,
                    ),
                    no <= i32::MAX && np <= i32::MAX && nq <= i32::MAX,
                    0 <= o < no - 1,
                    0 <= p < np,
                    0 <= q <= nq,
                    as_ints(indices@) == lines + line_quads(
                        occ@,
                        pl,
                        k,
                        b.0 + o,
                        b.1 + p,
                        b.2,
                        q as nat,
                    ),
                decreases nq - q,
            {
                push_edge_quad(indices, out, field, axis, o, p, q, color, occ);
                assert(as_ints(indices@) =~= lines + line_quads(
                    occ@,
                    pl,
                    k,
                    b.0 + o,
                    b.1 + p,
                    b.2,
                    (q + 1) as nat,
                ));
                q += 1;
            }
            assert(as_ints(indices@) =~= sheets + sheet_quads(
                occ@,
                pl,
                k,
                b.0 + o,
                b.1,
                b.2,
                nq as nat,
                (p + 1) as nat,
            ));
            p += 1;
        }
        assert(as_ints(indices@) =~= start + axis_quads(
            occ@,
            pl,
            k,
            b.0,
            b.1,
            b.2,
            np as nat,
            nq as nat,
            (o + 1) as nat,
        ));
        o += 1;
    }
}

/// Dual contouring over one bucket: the surface of all occupied cells, coloured by
/// the cells of the bucket. `None` where one of the maps holds no cell.
pub fn dual_contour_bucket(
    color_map: &CoordMap,
    full_map: &CoordMap,
    voxels: &[Voxel],
) -> (r: Option<SurfaceMesh>)
    requires
        positions_in(entries(*color_map), voxels@),
        positions_in(entries(*full_map), voxels@),
        entries(*full_map).dom() != Set::<VoxelCoord>::empty() ==> lattice_fits(
            entries(*full_map).dom(),
        ),
    ensures
        r is None <==> entries(*color_map).dom() == Set::<VoxelCoord>::empty() || entries(
            *full_map,
        ).dom() == Set::<VoxelCoord>::empty(),
        r matches Some(m) ==> exists|c: VoxelCoord| #[trigger]
            entries(*color_map).contains_key(c) && m@ == contoured(
                cells_of(entries(*color_map), voxels@),
                cells_of(entries(*full_map), voxels@),
                voxels@[entries(*color_map)[c] as int].material,
            ),
{
    let field = match build_lattice_field(color_map, full_map, voxels) {
        Some(f) => f,
        None => {
            return None;
        },
    };
    let ghost color = cells_of(entries(*color_map), voxels@);
    let ghost occ = cells_of(entries(*full_map), voxels@);
    proof {
        law_surface_is_there(occ);
    }
    let out = visit_cells(&field, Ghost(color), Ghost(occ));
    let mut indices: Vec<usize> = Vec::new();
    push_axis_quads(
        &mut indices,
        &out,
        &field,
        0,
        field.nx,
        field.ny,
        field.nz,
        Ghost(color),
        Ghost(occ),
    );
    push_axis_quads(
        &mut indices,
        &out,
        &field,
        1,
        field.ny,
        field.nx,
        field.nz,
        Ghost(color),
        Ghost(occ),
    );
    push_axis_quads(
        &mut indices,
        &out,
        &field,
        2,
        field.nz,
        field.nx,
        field.ny,
        Ghost(color),
        Ghost(occ),
    );
    assert(as_ints(indices@) =~= surface_quads(occ));
    let mesh = SurfaceMesh {
        vertices: out.vertices,
        samples: out.samples,
        owners: out.owners,
        indices,
    };
    assert(mesh@ =~= contoured(color, occ, field.bucket_material));
    Some(mesh)
}

proof fn lemma_line_holds_quad(
    occupancy: Cells,
    places: Seq<VoxelCoord>,
    axis: int,
    o: int,
    p: int,
    q: int,
    n: nat,
    i: int,
)
    requires
        0 <= i < n,
    ensures
        line_quads(occupancy, places, axis, o, p, q, n).len() >= edge_quad(
            occupancy,
            places,
            axis,
            o,
            p,
            q + i,
        ).len(),
    decreases n,
{
    if i < n - 1 {
        lemma_line_holds_quad(occupancy, places, axis, o, p, q, (n - 1) as nat, i);
    }
}

proof fn lemma_sheet_holds_line(
    occupancy: Cells,
    places: Seq<VoxelCoord>,
    axis: int,
    o: int,
    p: int,
    q: int,
    nq: nat,
    n: nat,
    i: int,
)
    requires
        0 <= i < n,
    ensures
        sheet_quads(occupancy, places, axis, o, p, q, nq, n).len() >= line_quads(
            occupancy,
            places,
            axis,
            o,
            p + i,
            q,
            nq,
        ).len(),
    decreases n,
{
    if i < n - 1 {
        lemma_sheet_holds_line(occupancy, places, axis, o, p, q, nq, (n - 1) as nat, i);
    }
}

proof fn lemma_axis_holds_first_sheet(
    occupancy: Cells,
    places: Seq<VoxelCoord>,
    axis: int,
    o: int,
    p: int,
    q: int,
    np: nat,
    nq: nat,
    n: nat,
)
    requires
        n > 0,
    ensures
        axis_quads(occupancy, places, axis, o, p, q, np, nq, n).len() >= sheet_quads(
            occupancy,
            places,
            axis,
            o,
            p,
            q,
            nq,
            np,
        ).len(),
    decreases n,
{
    if n > 1 {
        lemma_axis_holds_first_sheet(occupancy, places, axis, o, p, q, np, nq, (n - 1) as nat);
    }
}

/// Where a cell is filled there is a surface, with vertices and with triangles: the
/// nodes of a filled cell are inside, and those at the border of the lattice outside.
pub proof fn law_surface_is_there(occupancy: Cells)
    requires
        lattice_fits(occupancy.dom()),
        bounds(
            occupancy.dom(),
            low_corner(occupancy.dom()),
            high_corner(occupancy.dom()),
        ),
    ensures
        surface_cells(occupancy).len() > 0,
        surface_quads(occupancy).len() > 0,
{
    let (m, n) = lattice_frame(occupancy.dom());
    let lo = low_corner(occupancy.dom());
    let places = surface_cells(occupancy);
    let c = choose|c: VoxelCoord| #[trigger] occupancy.dom().contains(c) && c.0 == lo.0;
    let (x, y, z) = (c.0 as int, c.1 as int, c.2 as int);
    assert(node_value(occupancy, x, y, z) > 0) by {
        reveal(node_value);
        assert(filled(occupancy, x, y, z));
    }
    law_lattice_border_is_empty(occupancy, x - 1, y, z);
    assert(axis_node(0, m.0, y, z) == (x - 1, y, z));
    assert(axis_node(0, m.0 + 1, y, z) == (x, y, z));
    assert(edge_quad(occupancy, places, 0, m.0, y, z).len() == 6);
    law_quads_are_complete(occupancy, 0, m.0, y, z);
    assert(places.contains(cell_at(axis_node(0, m.0, y - 0, z - 0))));
    lemma_line_holds_quad(occupancy, places, 0, m.0, y, m.2, n.2, z - m.2);
    lemma_sheet_holds_line(occupancy, places, 0, m.0, m.1, m.2, n.2, n.1, y - m.1);
    lemma_axis_holds_first_sheet(
        occupancy,
        places,
        0,
        m.0,
        m.1,
        m.2,
        n.1,
        n.2,
        (n.0 - 1) as nat,
    );
}

/// Every number of the list is a position in a list of `n`.
spec fn within(s: Seq<int>, n: int) -> bool {
    forall|i: int| 0 <= i < s.len() ==> 0 <= #[trigger] s[i] < n
}

/// The given nodes are nodes of the lattice, the last along each axis left out of `no`.
pub(crate) open spec fn edges_in_lattice(
    occupancy: Cells,
    axis: int,
    o: int,
    p: int,
    q: int,
    no: nat,
    np: nat,
    nq: nat,
) -> bool {
    let (m, n) = lattice_frame(occupancy.dom());
    let a = axis_node(axis, o, p, q);
    let b = axis_node(axis, o + no, p + np, q + nq);
    &&& 0 <= axis <= 2
    &&& lattice_fits(occupancy.dom())
    &&& bounds(occupancy.dom(), low_corner(occupancy.dom()), high_corner(occupancy.dom()))
    &&& m.0 <= a.0 && m.1 <= a.1 && m.2 <= a.2
    &&& b.0 <= m.0 + n.0 && b.1 <= m.1 + n.1 && b.2 <= m.2 + n.2
}

proof fn lemma_edge_quad_within(occupancy: Cells, axis: int, o: int, p: int, q: int)
    requires
        edges_in_lattice(occupancy, axis, o, p, q, 1, 1, 1),
    ensures
        within(
            edge_quad(occupancy, surface_cells(occupancy), axis, o, p, q),
            surface_cells(occupancy).len() as int,
        ),
{
    let places = surface_cells(occupancy);
    if edge_quad(occupancy, places, axis, o, p, q).len() > 0 {
        law_quads_are_complete(occupancy, axis, o, p, q);
        assert(places.contains(cell_at(axis_node(axis, o, p - 1, q - 1))));
        assert(places.contains(cell_at(axis_node(axis, o, p - 0, q - 0))));
        assert(places.contains(cell_at(axis_node(axis, o, p - 0, q - 1))));
        assert(places.contains(cell_at(axis_node(axis, o, p - 1, q - 0))));
    }
}

proof fn lemma_line_quads_within(occupancy: Cells, axis: int, o: int, p: int, q: int, n: nat)
    requires
        n > 0 ==> edges_in_lattice(occupancy, axis, o, p, q, 1, 1, n),
    ensures
        within(
            line_quads(occupancy, surface_cells(occupancy), axis, o, p, q, n),
            surface_cells(occupancy).len() as int,
        ),
    decreases n,
{
    if n > 0 {
        lemma_line_quads_within(occupancy, axis, o, p, q, (n - 1) as nat);
        lemma_edge_quad_within(occupancy, axis, o, p, q + n - 1);
    }
}

proof fn lemma_sheet_quads_within(
    occupancy: Cells,
    axis: int,
    o: int,
    p: int,
    q: int,
    nq: nat,
    n: nat,
)
    requires
        n > 0 ==> edges_in_lattice(occupancy, axis, o, p, q, 1, n, nq),
    ensures
        within(
            sheet_quads(occupancy, surface_cells(occupancy), axis, o, p, q, nq, n),
            surface_cells(occupancy).len() as int,
        ),
    decreases n,
{
    if n > 0 {
        lemma_sheet_quads_within(occupancy, axis, o, p, q, nq, (n - 1) as nat);
        lemma_line_quads_within(occupancy, axis, o, p + n - 1, q, nq);
    }
}

proof fn lemma_axis_quads_within(
    occupancy: Cells,
    axis: int,
    o: int,
    p: int,
    q: int,
    np: nat,
    nq: nat,
    n: nat,
)
    requires
        n > 0 ==> edges_in_lattice(occupancy, axis, o, p, q, n, np, nq),
    ensures
        within(
            axis_quads(occupancy, surface_cells(occupancy), axis, o, p, q, np, nq, n),
            surface_cells(occupancy).len() as int,
        ),
    decreases n,
{
    if n > 0 {
        lemma_axis_quads_within(occupancy, axis, o, p, q, np, nq, (n - 1) as nat);
        lemma_sheet_quads_within(occupancy, axis, o + n - 1, p, q, nq, np);
    }
}

proof fn lemma_owners_within(color: Cells, occupancy: Cells, places: Seq<VoxelCoord>)
    ensures
        cell_owners(color, occupancy, places).len() == cell_samples(
            color,
            occupancy,
            places,
        ).len(),
        within(cell_owners(color, occupancy, places), places.len() as int),
    decreases places.len(),
{
    if places.len() > 0 {
        lemma_owners_within(color, occupancy, places.drop_last());
    }
}

/// A dual contouring surface is well formed, and no two of its vertices share a cell.
pub proof fn law_contoured(color: Cells, occupancy: Cells, material: MaterialId)
    requires
        lattice_fits(occupancy.dom()),
        bounds(
            occupancy.dom(),
            low_corner(occupancy.dom()),
            high_corner(occupancy.dom()),
        ),
    ensures
        contoured(color, occupancy, material).well_formed(),
        forall|i: int, j: int|
            0 <= i < j < contoured(color, occupancy, material).vertices.len() ==> (
            #[trigger] contoured(color, occupancy, material).vertices[i]).place != (
            #[trigger] contoured(color, occupancy, material).vertices[j]).place,
{
    let (m, n) = lattice_frame(occupancy.dom());
    let places = surface_cells(occupancy);
    lemma_surface_cells(occupancy);
    lemma_owners_within(color, occupancy, places);
    lemma_axis_quads_within(occupancy, 0, m.0, m.1, m.2, n.1, n.2, (n.0 - 1) as nat);
    lemma_axis_quads_within(occupancy, 1, m.1, m.0, m.2, n.0, n.2, (n.1 - 1) as nat);
    lemma_axis_quads_within(occupancy, 2, m.2, m.0, m.1, n.0, n.1, (n.2 - 1) as nat);
}

} // verus!
