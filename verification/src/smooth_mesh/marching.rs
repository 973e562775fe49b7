//! Marching cubes over one bucket of cells, and the welding of its vertices.

use vstd::prelude::*;

use crate::collections::{coord_map_get, coord_map_insert, coord_map_new, entries, CoordMap};
use crate::distinct::{first_occurrences, law_first_occurrences, lemma_first_occurrences_push};
use crate::smooth_mesh::crossing::{
    cell_crossing, cell_pattern, corner_off, edge_ends, law_lattice_border_is_empty,
    law_node_value_range, outside, EdgeCrossing,
};
use crate::smooth_mesh::lattice::{
    bounds, build_lattice_field, cells_of, filled, high_corner, lattice_fits, low_corner,
    node_count, node_value, positions_in, Cells, LatticeField,
};
use crate::smooth_mesh::marching_tables::{tri_edges, triangle_edges};
use crate::smooth_mesh::surface::{Surface, SurfaceMesh, SurfaceVertex};
use crate::smooth_mesh::table_soundness::{
    crosses, law_mixed_patterns_have_triangles, law_triangles_on_crossing_edges, pattern_bit,
};
use crate::voxelle::{MaterialId, Voxel, VoxelCoord};

verus! {

/// Triangle corners of the cell with low node `(x, y, z)`, three per triangle.
pub open spec fn cell_triangles(cells: Cells, x: int, y: int, z: int) -> Seq<EdgeCrossing> {
    let edges = tri_edges(cell_pattern(cells, x, y, z));
    Seq::new(edges.len(), |i: int| cell_crossing(cells, cells, x, y, z, edges[i]))
}

/// Triangle corners of the first `n` cells of a row.
pub open spec fn row_triangles(cells: Cells, x: int, y: int, z: int, n: nat) -> Seq<EdgeCrossing>
    decreases n,
{
    if n == 0 {
        seq![]
    } else {
        row_triangles(cells, x, y, z, (n - 1) as nat) + cell_triangles(cells, x + n - 1, y, z)
    }
}

/// Triangle corners of the first `n` rows, each of `w` cells, of a plane.
pub open spec fn plane_triangles(
    cells: Cells,
    x: int,
    y: int,
    z: int,
    w: nat,
    n: nat,
) -> Seq<EdgeCrossing>
    decreases n,
{
    if n == 0 {
        seq![]
    } else {
        plane_triangles(cells, x, y, z, w, (n - 1) as nat) + row_triangles(
            cells,
            x,
            y + n - 1,
            z,
            w,
        )
    }
}

/// Triangle corners of the first `n` planes, each of `h` rows of `w` cells.
pub open spec fn volume_triangles(
    cells: Cells,
    x: int,
    y: int,
    z: int,
    w: nat,
    h: nat,
    n: nat,
) -> Seq<EdgeCrossing>
    decreases n,
{
    if n == 0 {
        seq![]
    } else {
        volume_triangles(cells, x, y, z, w, h, (n - 1) as nat) + plane_triangles(
            cells,
            x,
            y,
            z + n - 1,
            w,
            h,
        )
    }
}

/// Triangle corners of the surface round a set of cells, cell by cell over its lattice.
pub open spec fn surface_triangles(cells: Cells) -> Seq<EdgeCrossing> {
    let lo = low_corner(cells.dom());
    let hi = high_corner(cells.dom());
    volume_triangles(
        cells,
        lo.0 - 1,
        lo.1 - 1,
        lo.2 - 1,
        (node_count(lo.0, hi.0) - 1) as nat,
        (node_count(lo.1, hi.1) - 1) as nat,
        (node_count(lo.2, hi.2) - 1) as nat,
    )
}

/// Coordinate of a crossing along one axis, in edge steps: nodes stand half a cell
/// above their coordinate.
pub open spec fn axis_steps(a: int, b: int, step: int) -> int {
    a * 1680 + 840 + (b - a) * step
}

/// A coordinate in edge steps rounded to millionths of a cell, and kept within `i32`.
pub open spec fn millionths(steps: int) -> int {
    let size = if steps < 0 {
        -steps
    } else {
        steps
    };
    let rounded = (size * 25000 + 21) / 42;
    if steps < 0 {
        if -rounded < i32::MIN {
            i32::MIN as int
        } else {
            -rounded
        }
    } else {
        if rounded > i32::MAX {
            i32::MAX as int
        } else {
            rounded
        }
    }
}

/// Rounded position of a crossing: crossings that share it are one vertex.
pub open spec fn position_key(c: EdgeCrossing) -> VoxelCoord {
    (
        millionths(axis_steps(c.node_a.0 as int, c.node_b.0 as int, c.step as int)) as i32,
        millionths(axis_steps(c.node_a.1 as int, c.node_b.1 as int, c.step as int)) as i32,
        millionths(axis_steps(c.node_a.2 as int, c.node_b.2 as int, c.step as int)) as i32,
    )
}

/// Within 2147 cells of the origin rounding keeps coordinates apart.
pub proof fn law_millionths_distinct(a: int, b: int)
    requires
        -2147 * 1680 <= a <= 2147 * 1680,
        -2147 * 1680 <= b <= 2147 * 1680,
        a != b,
    ensures
        millionths(a) != millionths(b),
{
}

/// Coordinate along one axis, in edge steps, rounded to millionths of a cell.
fn axis_key(a: i32, b: i32, step: i32) -> (r: i32)
    requires
        -1 <= b - a <= 1,
        0 <= step <= 1680,
    ensures
        r == millionths(axis_steps(a as int, b as int, step as int)),
{
    proof {
        assert(-1680 <= (b - a) * step <= 1680) by (nonlinear_arith)
            requires
                -1 <= b - a <= 1,
                0 <= step <= 1680,
        ;
    }
    let steps: i64 = a as i64 * 1680 + 840 + (b as i64 - a as i64) * step as i64;
    if steps < 0 {
        let rounded: i64 = ((-steps) * 25000 + 21) / 42;
        if -rounded < i32::MIN as i64 {
            i32::MIN
        } else {
            (-rounded) as i32
        }
    } else {
        let rounded: i64 = (steps * 25000 + 21) / 42;
        if rounded > i32::MAX as i64 {
            i32::MAX
        } else {
            rounded as i32
        }
    }
}

/// The crossing lies on an edge of the lattice.
pub open spec fn on_edge(c: EdgeCrossing) -> bool {
    &&& -1 <= c.node_b.0 - c.node_a.0 <= 1
    &&& -1 <= c.node_b.1 - c.node_a.1 <= 1
    &&& -1 <= c.node_b.2 - c.node_a.2 <= 1
    &&& 0 <= c.step <= 1680
}

/// Positions of a list of crossings.
pub open spec fn position_keys(samples: Seq<EdgeCrossing>) -> Seq<VoxelCoord> {
    Seq::new(samples.len(), |i: int| position_key(samples[i]))
}

/// Triangle corners with equal positions made one vertex; vertices are in the
/// order in which their position first occurs.
pub open spec fn welded(samples: Seq<EdgeCrossing>, material: MaterialId) -> Surface {
    let keys = position_keys(samples);
    let places = first_occurrences(keys);
    let owners = Seq::new(samples.len(), |i: int| places.index_of(keys[i]));
    Surface {
        vertices: Seq::new(
            places.len(),
            |i: int| SurfaceVertex { place: places[i], material },
        ),
        samples,
        owners,
        indices: owners,
    }
}

/// A welded surface is well formed, no two of its vertices share a place, and
/// each sample belongs to the vertex at its own position.
pub proof fn law_welded(samples: Seq<EdgeCrossing>, material: MaterialId)
    ensures
        welded(samples, material).well_formed(),
        forall|i: int, j: int|
            0 <= i < j < welded(samples, material).vertices.len() ==> (#[trigger] welded(
                samples,
                material,
            ).vertices[i]).place != (#[trigger] welded(samples, material).vertices[j]).place,
        forall|i: int|
            #![trigger welded(samples, material).owners[i]]
            0 <= i < samples.len() ==> welded(samples, material).vertices[welded(
                samples,
                material,
            ).owners[i]].place == position_key(samples[i]),
{
    let keys = position_keys(samples);
    let places = first_occurrences(keys);
    let w = welded(samples, material);
    law_first_occurrences(keys);
    assert forall|i: int| 0 <= i < samples.len() implies 0 <= #[trigger] w.owners[i]
        < places.len() && places[w.owners[i]] == keys[i] by {
        assert(keys.contains(keys[i]));
        assert(places.contains(keys[i]));
    }
}

/// Vertices of a list of triangle corners: corners at one position become one
/// vertex, numbered in the order in which the positions first occur.
pub fn weld_vertices_to_mesh(samples: Vec<EdgeCrossing>, material: MaterialId) -> (r: SurfaceMesh)
    requires
        forall|i: int| 0 <= i < samples@.len() ==> on_edge(#[trigger] samples@[i]),
    ensures
        r@ == welded(samples@, material),
{
    let mut vertex_map = coord_map_new();
    let mut vertices: Vec<SurfaceVertex> = Vec::new();
    let mut owners: Vec<usize> = Vec::new();
    let mut indices: Vec<usize> = Vec::new();
    let ghost keys = position_keys(samples@);
    let ghost all = first_occurrences(keys);
    let mut i: usize = 0;
    proof {
        assert(keys.take(0) =~= Seq::<VoxelCoord>::empty());
        law_first_occurrences(keys);
    }
    while i < samples.len()
        invariant
            0 <= i <= samples@.len(),
            forall|i: int| 0 <= i < samples@.len() ==> on_edge(#[trigger] samples@[i]),
            keys == position_keys(samples@),
            vertices@.len() == first_occurrences(keys.take(i as int)).len(),
            forall|j: int|
                0 <= j < vertices@.len() ==> #[trigger] vertices@[j] == (SurfaceVertex {
                    place: first_occurrences(keys.take(i as int))[j],
                    material,
                }),
            forall|c: VoxelCoord| #[trigger]
                entries(vertex_map).contains_key(c) ==> entries(vertex_map)[c]
                    < vertices@.len() && vertices@[entries(vertex_map)[c] as int].place == c,
            forall|j: int|
                0 <= j < vertices@.len() ==> entries(vertex_map).contains_key(
                    (#[trigger] vertices@[j]).place,
                ),
            owners@.len() == i,
            indices@.len() == i,
            forall|j: int|
                0 <= j < i ==> (#[trigger] owners@[j]) < vertices@.len()
                    && vertices@[owners@[j] as int].place == keys[j] && indices@[j] == owners@[j],
        decreases samples@.len() - i,
    {
        let c = samples[i];
        assert(on_edge(samples@[i as int]));
        let key: VoxelCoord = (
            axis_key(c.node_a.0, c.node_b.0, c.step),
            axis_key(c.node_a.1, c.node_b.1, c.step),
            axis_key(c.node_a.2, c.node_b.2, c.step),
        );
        let ghost places = first_occurrences(keys.take(i as int));
        let ghost before = vertices@;
        proof {
            assert(keys[i as int] == key);
            assert(keys.take(i as int + 1) =~= keys.take(i as int).push(key));
            lemma_first_occurrences_push(keys.take(i as int), key);
            law_first_occurrences(keys.take(i as int));
        }
        let vi: usize = match coord_map_get(&vertex_map, &key) {
            Some(vi) => {
                proof {
                    assert(places[vi as int] == key);
                    assert(places.contains(key));
                }
                vi
            },
            None => {
                let vi: usize = vertices.len();
                proof {
                    if places.contains(key) {
                        let j = choose|j: int| 0 <= j < places.len() && places[j] == key;
                        assert(vertices@[j].place == key);
                        assert(false);
                    }
                }
                vertices.push(SurfaceVertex { place: key, material });
                coord_map_insert(&mut vertex_map, key, vi);
                proof {
                    assert forall|c: VoxelCoord| #[trigger]
                        entries(vertex_map).contains_key(c) implies entries(vertex_map)[c]
                        < vertices@.len() && vertices@[entries(vertex_map)[c] as int].place
                        == c by {
                        if c != key {
                            assert(before[entries(vertex_map)[c] as int].place == c);
                        }
                    }
                    assert forall|j: int| 0 <= j < vertices@.len() implies entries(
                        vertex_map,
                    ).contains_key((#[trigger] vertices@[j]).place) by {
                        if j < before.len() {
                            assert(vertices@[j] == before[j]);
                        }
                    }
                }
                vi
            },
        };
        owners.push(vi);
        indices.push(vi);
        i += 1;
    }
    proof {
        assert(keys.take(i as int) =~= keys);
    }
    let mesh = SurfaceMesh { vertices, samples, owners, indices };
    proof {
        let w = welded(mesh.samples@, material);
        law_welded(mesh.samples@, material);
        assert(mesh@.vertices =~= w.vertices);
        assert forall|j: int| 0 <= j < mesh.owners@.len() implies #[trigger] mesh.owners@[j] as int
            == w.owners[j] by {
            let a = mesh.owners@[j] as int;
            let b = w.owners[j];
            assert(mesh.vertices@[a] == w.vertices[a]);
            assert(w.vertices[b].place == position_key(mesh.samples@[j]));
            assert(w.vertices[a].place == keys[j]);
            if a < b {
                assert(w.vertices[a].place != w.vertices[b].place);
            } else if b < a {
                assert(w.vertices[b].place != w.vertices[a].place);
            }
        }
        assert(mesh@.owners =~= w.owners);
        assert(mesh@.indices =~= w.indices);
        assert(mesh@ =~= w);
    }
    mesh
}

/// A cell and its corners can be addressed in `i32`.
spec fn addressable(x: int, y: int, z: int, w: nat, h: nat, d: nat) -> bool {
    &&& i32::MIN <= x && x + w <= i32::MAX
    &&& i32::MIN <= y && y + h <= i32::MAX
    &&& i32::MIN <= z && z + d <= i32::MAX
}

/// Every crossing of the list lies on an edge of the lattice that joins an empty
/// node to one with filled cells.
pub open spec fn all_on_edge(s: Seq<EdgeCrossing>) -> bool {
    forall|i: int|
        0 <= i < s.len() ==> on_edge(#[trigger] s[i]) && (s[i].value_a == 0) != (s[i].value_b == 0)
}

/// The bits of a cell's corner pattern are its corners outside the surface.
pub(crate) proof fn lemma_pattern_bits(cells: Cells, x: int, y: int, z: int)
    ensures
        0 <= cell_pattern(cells, x, y, z) < 256,
        forall|c: int|
            0 <= c < 8 ==> (#[trigger] pattern_bit(cell_pattern(cells, x, y, z), c) == 1
                <==> outside(cells, x, y, z, c)),
        forall|c: int|
            0 <= c < 8 ==> 0 <= #[trigger] pattern_bit(cell_pattern(cells, x, y, z), c) <= 1,
{
}

/// The surface of a set of cells only has corners where a lattice edge joins an
/// empty node to one with filled cells.
pub proof fn law_surface_triangles_cross(cells: Cells)
    requires
        lattice_fits(cells.dom()),
        bounds(cells.dom(), low_corner(cells.dom()), high_corner(cells.dom())),
    ensures
        all_on_edge(surface_triangles(cells)),
{
    let lo = low_corner(cells.dom());
    let hi = high_corner(cells.dom());
    lemma_volume_on_edge(
        cells,
        lo.0 - 1,
        lo.1 - 1,
        lo.2 - 1,
        (node_count(lo.0, hi.0) - 1) as nat,
        (node_count(lo.1, hi.1) - 1) as nat,
        (node_count(lo.2, hi.2) - 1) as nat,
    );
}

proof fn lemma_cell_on_edge(cells: Cells, x: int, y: int, z: int)
    requires
        addressable(x, y, z, 1, 1, 1),
    ensures
        all_on_edge(cell_triangles(cells, x, y, z)),
{
    let edges = tri_edges(cell_pattern(cells, x, y, z));
    let pattern = cell_pattern(cells, x, y, z);
    let tris = cell_triangles(cells, x, y, z);
    lemma_pattern_bits(cells, x, y, z);
    law_triangles_on_crossing_edges(pattern);
    assert forall|i: int| 0 <= i < edges.len() implies on_edge(#[trigger] tris[i]) && (
    tris[i].value_a == 0) != (tris[i].value_b == 0) by {
        let e = edges[i];
        assert(0 <= e < 12 && crosses(pattern, e));
        let (a, b) = edge_ends(e);
        assert(outside(cells, x, y, z, a) != outside(cells, x, y, z, b));
        law_node_value_range(
            cells,
            x + corner_off(a).0,
            y + corner_off(a).1,
            z + corner_off(a).2,
        );
        law_node_value_range(
            cells,
            x + corner_off(b).0,
            y + corner_off(b).1,
            z + corner_off(b).2,
        );
    }
}

proof fn lemma_row_on_edge(cells: Cells, x: int, y: int, z: int, n: nat)
    requires
        addressable(x, y, z, n, 1, 1),
    ensures
        all_on_edge(row_triangles(cells, x, y, z, n)),
    decreases n,
{
    if n > 0 {
        lemma_row_on_edge(cells, x, y, z, (n - 1) as nat);
        lemma_cell_on_edge(cells, x + n - 1, y, z);
    }
}

proof fn lemma_plane_on_edge(cells: Cells, x: int, y: int, z: int, w: nat, n: nat)
    requires
        addressable(x, y, z, w, n, 1),
    ensures
        all_on_edge(plane_triangles(cells, x, y, z, w, n)),
    decreases n,
{
    if n > 0 {
        lemma_plane_on_edge(cells, x, y, z, w, (n - 1) as nat);
        lemma_row_on_edge(cells, x, y + n - 1, z, w);
    }
}

proof fn lemma_volume_on_edge(cells: Cells, x: int, y: int, z: int, w: nat, h: nat, n: nat)
    requires
        addressable(x, y, z, w, h, n),
    ensures
        all_on_edge(volume_triangles(cells, x, y, z, w, h, n)),
    decreases n,
{
    if n > 0 {
        lemma_volume_on_edge(cells, x, y, z, w, h, (n - 1) as nat);
        lemma_plane_on_edge(cells, x, y, z + n - 1, w, h);
    }
}

/// Appends the triangle corners of the cell whose low node is node `(x, y, z)` of the lattice.
fn push_cell_triangles(
    field: &LatticeField,
    x: i32,
    y: i32,
    z: i32,
    raw: &mut Vec<EdgeCrossing>,
    cells: Ghost<Cells>,
)
    requires
        field.describes(cells@, cells@),
        -1 <= x < field.nx,
        -1 <= y < field.ny,
        -1 <= z < field.nz,
    ensures
        final(raw)@ == old(raw)@ + cell_triangles(
            cells@,
            field.node_min_x + x,
            field.node_min_y + y,
            field.node_min_z + z,
        ),
{
    let pattern: usize = field.pattern_at(x, y, z, cells, cells);
    let edges = triangle_edges(pattern);
    let ghost (gx, gy, gz) = (
        field.node_min_x + x,
        field.node_min_y + y,
        field.node_min_z + z,
    );
    let ghost tris = cell_triangles(cells@, gx, gy, gz);
    let ghost start = raw@;
    let mut i: usize = 0;
    assert(start + tris.take(0) =~= start);
    while i < edges.len()
        invariant
            0 <= i <= edges@.len(),
            field.describes(cells@, cells@),
            -1 <= x < field.nx,
            -1 <= y < field.ny,
            -1 <= z < field.nz,
            gx == field.node_min_x + x,
            gy == field.node_min_y + y,
            gz == field.node_min_z + z,
            tris == cell_triangles(cells@, gx, gy, gz),
            pattern == cell_pattern(cells@, gx, gy, gz),
            edges@.len() == tri_edges(pattern as int).len(),
            forall|i: int|
                0 <= i < edges@.len() ==> (#[trigger] edges@[i]) == tri_edges(pattern as int)[i]
                    && edges@[i] < 12,
            raw@ == start + tris.take(i as int),
        decreases edges@.len() - i,
    {
        let e: usize = edges[i];
        assert(edges@[i as int] == tri_edges(pattern as int)[i as int]);
        raw.push(field.crossing_at(x, y, z, e, cells, cells));
        assert(tris[i as int] == raw@.last());
        assert(tris.take(i as int + 1) =~= tris.take(i as int).push(tris[i as int]));
        assert(raw@ =~= start + tris.take(i as int + 1));
        i += 1;
    }
    assert(tris.take(i as int) =~= tris);
}

proof fn lemma_row_holds_cell(cells: Cells, x: int, y: int, z: int, n: nat, i: int)
    requires
        0 <= i < n,
    ensures
        row_triangles(cells, x, y, z, n).len() >= cell_triangles(cells, x + i, y, z).len(),
    decreases n,
{
    if i < n - 1 {
        lemma_row_holds_cell(cells, x, y, z, (n - 1) as nat, i);
    }
}

proof fn lemma_plane_holds_row(cells: Cells, x: int, y: int, z: int, w: nat, n: nat, i: int)
    requires
        0 <= i < n,
    ensures
        plane_triangles(cells, x, y, z, w, n).len() >= row_triangles(cells, x, y + i, z, w).len(),
    decreases n,
{
    if i < n - 1 {
        lemma_plane_holds_row(cells, x, y, z, w, (n - 1) as nat, i);
    }
}

proof fn lemma_volume_holds_plane(
    cells: Cells,
    x: int,
    y: int,
    z: int,
    w: nat,
    h: nat,
    n: nat,
    i: int,
)
    requires
        0 <= i < n,
    ensures
        volume_triangles(cells, x, y, z, w, h, n).len() >= plane_triangles(
            cells,
            x,
            y,
            z + i,
            w,
            h,
        ).len(),
    decreases n,
{
    if i < n - 1 {
        lemma_volume_holds_plane(cells, x, y, z, w, h, (n - 1) as nat, i);
    }
}

/// Where a cell is filled there are triangles: its nodes are inside, and those at the
/// border of the lattice outside.
pub proof fn law_triangles_are_there(cells: Cells)
    requires
        bounds(cells.dom(), low_corner(cells.dom()), high_corner(cells.dom())),
    ensures
        surface_triangles(cells).len() > 0,
{
    let lo = low_corner(cells.dom());
    let hi = high_corner(cells.dom());
    let c = choose|c: VoxelCoord| #[trigger] cells.dom().contains(c) && c.0 == lo.0;
    let (x, y, z) = (c.0 as int, c.1 as int, c.2 as int);
    assert(node_value(cells, x, y, z) > 0) by {
        reveal(node_value);
        assert(filled(cells, x, y, z));
    }
    law_lattice_border_is_empty(cells, x - 1, y, z);
    assert(outside(cells, x - 1, y, z, 0));
    assert(!outside(cells, x - 1, y, z, 1));
    law_mixed_patterns_have_triangles(cell_pattern(cells, x - 1, y, z));
    let (w, h, d) = (
        (node_count(lo.0, hi.0) - 1) as nat,
        (node_count(lo.1, hi.1) - 1) as nat,
        (node_count(lo.2, hi.2) - 1) as nat,
    );
    lemma_row_holds_cell(cells, lo.0 - 1, y, z, w, 0);
    lemma_plane_holds_row(cells, lo.0 - 1, lo.1 - 1, z, w, h, y - (lo.1 - 1));
    lemma_volume_holds_plane(cells, lo.0 - 1, lo.1 - 1, lo.2 - 1, w, h, d, z - (lo.2 - 1));
}

/// Marching cubes over one bucket: the welded surface of its cells. `None` where
/// there is no cell.
pub fn marching_cubes_bucket(color_map: &CoordMap, voxels: &[Voxel]) -> (r: Option<SurfaceMesh>)
    requires
        positions_in(entries(*color_map), voxels@),
        entries(*color_map).dom() != Set::<VoxelCoord>::empty() ==> lattice_fits(
            entries(*color_map).dom(),
        ),
    ensures
        r is None <==> entries(*color_map).dom() == Set::<VoxelCoord>::empty(),
        r matches Some(m) ==> exists|c: VoxelCoord| #[trigger]
            entries(*color_map).contains_key(c) && m@ == welded(
                surface_triangles(cells_of(entries(*color_map), voxels@)),
                voxels@[entries(*color_map)[c] as int].material,
            ),
{
    let field = match build_lattice_field(color_map, color_map, voxels) {
        Some(f) => f,
        None => {
            return None;
        },
    };
    let ghost cells = cells_of(entries(*color_map), voxels@);
    let mut raw: Vec<EdgeCrossing> = Vec::new();
    let ghost (gx, gy, gz) = (
        field.node_min_x as int,
        field.node_min_y as int,
        field.node_min_z as int,
    );
    let ghost (w, h, d) = (
        (field.nx - 1) as nat,
        (field.ny - 1) as nat,
        (field.nz - 1) as nat,
    );
    let mut z: i32 = 0;
    while (z as usize) < field.nz - 1
        invariant
            field.describes(cells, cells),
            gx == field.node_min_x && gy == field.node_min_y && gz == field.node_min_z,
            w == field.nx - 1 && h == field.ny - 1 && d == field.nz - 1,
            0 <= z <= d <= i32::MAX,
            raw@ == volume_triangles(cells, gx, gy, gz, w, h, z as nat),
        decreases d - z,
    {
        let mut y: i32 = 0;
        let ghost planes = raw@;
        assert(planes + plane_triangles(cells, gx, gy, gz + z, w, 0) =~= planes);
        while (y as usize) < field.ny - 1
            invariant
                field.describes(cells, cells),
                gx == field.node_min_x && gy == field.node_min_y && gz == field.node_min_z,
                w == field.nx - 1 && h == field.ny - 1 && d == field.nz - 1,
                0 <= z < d <= i32::MAX,
                0 <= y <= h <= i32::MAX,
                raw@ == planes + plane_triangles(cells, gx, gy, gz + z, w, y as nat),
            decreases h - y,
        {
            let mut x: i32 = 0;
            let ghost rows = raw@;
            assert(rows + row_triangles(cells, gx, gy + y, gz + z, 0) =~= rows);
            while (x as usize) < field.nx - 1
                invariant
                    field.describes(cells, cells),
                    gx == field.node_min_x && gy == field.node_min_y && gz == field.node_min_z,
                    w == field.nx - 1 && h == field.ny - 1 && d == field.nz - 1,
                    0 <= z < d <= i32::MAX,
                    0 <= y < h <= i32::MAX,
                    0 <= x <= w <= i32::MAX,
                    raw@ == rows + row_triangles(cells, gx, gy + y, gz + z, x as nat),
                decreases w - x,
            {
                push_cell_triangles(&field, x, y, z, &mut raw, Ghost(cells));
                assert(raw@ =~= rows + row_triangles(
                    cells,
                    gx,
                    gy + y,
                    gz + z,
                    (x + 1) as nat,
                ));
                x += 1;
            }
            assert(raw@ =~= planes + plane_triangles(
                cells,
                gx,
                gy,
                gz + z,
                w,
                (y + 1) as nat,
            ));
            y += 1;
        }
        assert(raw@ =~= volume_triangles(cells, gx, gy, gz, w, h, (z + 1) as nat));
        z += 1;
    }
    assert(raw@ == surface_triangles(cells));
    proof {
        lemma_volume_on_edge(cells, gx, gy, gz, w, h, d);
    }
    Some(weld_vertices_to_mesh(raw, field.bucket_material))
}

} // verus!
