//! How the triangles of the marching cubes surface are wound, and that none of them
//! is missing.

use vstd::prelude::*;

use crate::smooth_mesh::closed::{step, turns};
use crate::smooth_mesh::crossing::{
    cell_crossing, cell_pattern, corner_off, edge_ends, law_lattice_border_is_empty,
    law_node_value_range, outside, EdgeCrossing,
};
use crate::smooth_mesh::lattice::{
    bounds, high_corner, lattice_fits, low_corner, node_count, node_value, Cells,
};
use crate::smooth_mesh::marching::{
    axis_steps, cell_triangles, law_welded, lemma_pattern_bits, millionths, plane_triangles,
    position_key, row_triangles, surface_triangles, volume_triangles, welded,
};
use crate::smooth_mesh::marching_tables::tri_edges;
use crate::smooth_mesh::slope_laws::{crossing_is_true, law_crossing_is_true};
use crate::smooth_mesh::table_soundness::{law_triangles_on_crossing_edges, pattern_bit};
use crate::smooth_mesh::table_winding::{
    edge_middle, edge_outward, face_corner, face_edge, law_border_cuts_off_the_outside,
    law_pattern_triangles_face_outward, normal_product, ring_segments, sum_of,
};
use crate::voxelle::MaterialId;

verus! {

/// One where the step from `x` to `y` is that from `a` to `b`.
pub open spec fn pass(
    x: EdgeCrossing,
    y: EdgeCrossing,
    a: EdgeCrossing,
    b: EdgeCrossing,
) -> int {
    if x == a && y == b {
        1
    } else {
        0
    }
}

/// How often triangles, each given by its three corners and run round once in their
/// order, step from the crossing `a` to the crossing `b`.
pub open spec fn passes(corners: Seq<EdgeCrossing>, a: EdgeCrossing, b: EdgeCrossing) -> int
    decreases corners.len(),
{
    if corners.len() < 3 {
        0
    } else {
        let n = corners.len() - 3;
        passes(corners.take(n), a, b) + pass(corners[n], corners[n + 1], a, b) + pass(
            corners[n + 1],
            corners[n + 2],
            a,
            b,
        ) + pass(corners[n + 2], corners[n], a, b)
    }
}

/// Corner `c` of the cell with low node `(x, y, z)` is empty.
pub open spec fn corner_empty(cells: Cells, x: int, y: int, z: int, c: int) -> bool {
    node_value(cells, x + corner_off(c).0, y + corner_off(c).1, z + corner_off(c).2) == 0
}

/// Segments from edge `e` to edge `f` that cut off the empty corners of face `k` of
/// a cell, with the empty corners to their right as seen from outside the cell.
pub open spec fn cut_segments(
    cells: Cells,
    x: int,
    y: int,
    z: int,
    k: int,
    e: int,
    f: int,
) -> int {
    ring_segments(
        corner_empty(cells, x, y, z, face_corner(k, 0)),
        corner_empty(cells, x, y, z, face_corner(k, 1)),
        corner_empty(cells, x, y, z, face_corner(k, 2)),
        corner_empty(cells, x, y, z, face_corner(k, 3)),
        face_edge(k, 0),
        face_edge(k, 1),
        face_edge(k, 2),
        face_edge(k, 3),
        e,
        f,
    )
}

/// Segments from edge `e` to edge `f` on all faces of a cell.
pub open spec fn cell_segments(cells: Cells, x: int, y: int, z: int, e: int, f: int) -> int {
    cut_segments(cells, x, y, z, 0, e, f) + cut_segments(cells, x, y, z, 1, e, f) + cut_segments(
        cells,
        x,
        y,
        z,
        2,
        e,
        f,
    ) + cut_segments(cells, x, y, z, 3, e, f) + cut_segments(cells, x, y, z, 4, e, f)
        + cut_segments(cells, x, y, z, 5, e, f)
}

/// The low node of the cell and the node above it can be addressed.
pub open spec fn addressable_cell(x: int, y: int, z: int) -> bool {
    &&& i32::MIN <= x < i32::MAX
    &&& i32::MIN <= y < i32::MAX
    &&& i32::MIN <= z < i32::MAX
}

/// Crossings of different edges of a cell differ.
proof fn lemma_crossings_differ(cells: Cells, x: int, y: int, z: int, e: int, f: int)
    requires
        addressable_cell(x, y, z),
        0 <= e < 12,
        0 <= f < 12,
        cell_crossing(cells, cells, x, y, z, e) == cell_crossing(cells, cells, x, y, z, f),
    ensures
        e == f,
{
    let (c, d) = (
        cell_crossing(cells, cells, x, y, z, e),
        cell_crossing(cells, cells, x, y, z, f),
    );
    assert(c.node_a == d.node_a);
    assert(c.node_b == d.node_b);
    let (p, q) = (corner_off(edge_ends(e).0), corner_off(edge_ends(f).0));
    assert(p == q);
    assert(edge_ends(e).0 == edge_ends(f).0);
    let (p, q) = (corner_off(edge_ends(e).1), corner_off(edge_ends(f).1));
    assert(p == q);
    assert(edge_ends(e).1 == edge_ends(f).1);
}

/// Crossings on the listed edges of a cell.
spec fn on_edges(cells: Cells, x: int, y: int, z: int, edges: Seq<int>) -> Seq<EdgeCrossing> {
    Seq::new(edges.len(), |i: int| cell_crossing(cells, cells, x, y, z, edges[i]))
}

/// A pass between crossings is a step between their edges.
proof fn lemma_pass(cells: Cells, x: int, y: int, z: int, p: int, q: int, e: int, f: int)
    requires
        addressable_cell(x, y, z),
        0 <= p < 12,
        0 <= q < 12,
        0 <= e < 12,
        0 <= f < 12,
    ensures
        pass(
            cell_crossing(cells, cells, x, y, z, p),
            cell_crossing(cells, cells, x, y, z, q),
            cell_crossing(cells, cells, x, y, z, e),
            cell_crossing(cells, cells, x, y, z, f),
        ) == step(p, q, e, f),
{
    if cell_crossing(cells, cells, x, y, z, p) == cell_crossing(cells, cells, x, y, z, e) {
        lemma_crossings_differ(cells, x, y, z, p, e);
    }
    if cell_crossing(cells, cells, x, y, z, q) == cell_crossing(cells, cells, x, y, z, f) {
        lemma_crossings_differ(cells, x, y, z, q, f);
    }
}

proof fn lemma_passes(cells: Cells, x: int, y: int, z: int, edges: Seq<int>, e: int, f: int)
    requires
        addressable_cell(x, y, z),
        0 <= e < 12,
        0 <= f < 12,
        forall|i: int| 0 <= i < edges.len() ==> 0 <= #[trigger] edges[i] < 12,
    ensures
        passes(
            on_edges(cells, x, y, z, edges),
            cell_crossing(cells, cells, x, y, z, e),
            cell_crossing(cells, cells, x, y, z, f),
        ) == turns(edges, e, f),
    decreases edges.len(),
{
    if edges.len() >= 3 {
        let n = edges.len() - 3;
        let all = on_edges(cells, x, y, z, edges);
        lemma_passes(cells, x, y, z, edges.take(n), e, f);
        assert(all.take(n) =~= on_edges(cells, x, y, z, edges.take(n)));
        lemma_pass(cells, x, y, z, edges[n], edges[n + 1], e, f);
        lemma_pass(cells, x, y, z, edges[n + 1], edges[n + 2], e, f);
        lemma_pass(cells, x, y, z, edges[n + 2], edges[n], e, f);
    }
}

/// The triangles of a cell end in the faces of the cell, and are wound to face the
/// empty nodes: between the crossings of two edges they pass as much more often one
/// way than the other as the faces have segments that way between them, which cut
/// off the empty corners of each face with those corners to their right.
pub proof fn law_triangles_face_the_empty_nodes(
    cells: Cells,
    x: int,
    y: int,
    z: int,
    e: int,
    f: int,
)
    requires
        addressable_cell(x, y, z),
        0 <= e < 12,
        0 <= f < 12,
    ensures
        ({
            let a = cell_crossing(cells, cells, x, y, z, e);
            let b = cell_crossing(cells, cells, x, y, z, f);
            let corners = cell_triangles(cells, x, y, z);
            passes(corners, a, b) - passes(corners, b, a) == cell_segments(cells, x, y, z, e, f)
                - cell_segments(cells, x, y, z, f, e)
        }),
{
    let pattern = cell_pattern(cells, x, y, z);
    let edges = tri_edges(pattern);
    lemma_pattern_bits(cells, x, y, z);
    law_triangles_on_crossing_edges(pattern);
    law_border_cuts_off_the_outside(pattern, e, f);
    lemma_passes(cells, x, y, z, edges, e, f);
    lemma_passes(cells, x, y, z, edges, f, e);
    assert(cell_triangles(cells, x, y, z) =~= on_edges(cells, x, y, z, edges));
    assert forall|c: int| 0 <= c < 8 implies #[trigger] corner_empty(cells, x, y, z, c) == (
    pattern_bit(pattern, c) == 1) by {}
}

/// Twice the middle of the lattice edge that a crossing lies on.
#[verifier::opaque]
pub open spec fn middle(c: EdgeCrossing) -> (int, int, int) {
    (c.node_a.0 + c.node_b.0, c.node_a.1 + c.node_b.1, c.node_a.2 + c.node_b.2)
}

/// Direction from the filled to the empty node of a crossing.
#[verifier::opaque]
pub open spec fn outward(c: EdgeCrossing) -> (int, int, int) {
    let (a, b) = (c.node_a, c.node_b);
    if c.value_a == 0 {
        (a.0 - b.0, a.1 - b.1, a.2 - b.2)
    } else {
        (b.0 - a.0, b.1 - a.1, b.2 - a.2)
    }
}

/// Triangle `t` of a list of corners faces outward: through the middles of the
/// lattice edges of its corners, in their order, the cross product of its sides has
/// a positive product with the sum of the directions from filled to empty on them.
pub open spec fn faces_outward(corners: Seq<EdgeCrossing>, t: int) -> bool {
    let (a, b, c) = (corners[3 * t], corners[3 * t + 1], corners[3 * t + 2]);
    normal_product(middle(a), middle(b), middle(c), sum_of(outward(a), outward(b), outward(c))) > 0
}

/// A crossing of a cell lies and leaves as its edge does.
proof fn lemma_crossing_edge(cells: Cells, x: int, y: int, z: int, e: int)
    requires
        addressable_cell(x, y, z),
        0 <= e < 12,
    ensures
        ({
            let c = cell_crossing(cells, cells, x, y, z, e);
            let m = edge_middle(e);
            &&& middle(c) == (2 * x + m.0, 2 * y + m.1, 2 * z + m.2)
            &&& outward(c) == edge_outward(cell_pattern(cells, x, y, z), e)
        }),
{
    reveal(edge_middle);
    reveal(edge_outward);
    reveal(middle);
    reveal(outward);
    lemma_pattern_bits(cells, x, y, z);
    let (a, b) = edge_ends(e);
    let (p, q) = (corner_off(a), corner_off(b));
    assert(0 <= a < 8 && 0 <= b < 8);
    law_node_value_range(cells, x + p.0, y + p.1, z + p.2);
    assert(outside(cells, x, y, z, a) == (pattern_bit(cell_pattern(cells, x, y, z), a) == 1));
}

/// The triangles of a cell come in threes of corners, and each faces outward.
#[verifier::spinoff_prover]
pub proof fn law_cell_triangles_face_outward(cells: Cells, x: int, y: int, z: int, t: int)
    requires
        addressable_cell(x, y, z),
    ensures
        cell_triangles(cells, x, y, z).len() % 3 == 0,
        0 <= t && 3 * t + 2 < cell_triangles(cells, x, y, z).len() ==> faces_outward(
            cell_triangles(cells, x, y, z),
            t,
        ),
{
    let pattern = cell_pattern(cells, x, y, z);
    let edges = tri_edges(pattern);
    lemma_pattern_bits(cells, x, y, z);
    law_triangles_on_crossing_edges(pattern);
    if 0 <= t && 3 * t + 2 < edges.len() {
        law_pattern_triangles_face_outward(pattern, t);
        let (a, b, c) = (edges[3 * t], edges[3 * t + 1], edges[3 * t + 2]);
        lemma_crossing_edge(cells, x, y, z, a);
        lemma_crossing_edge(cells, x, y, z, b);
        lemma_crossing_edge(cells, x, y, z, c);
        let all = cell_triangles(cells, x, y, z);
        assert(all[3 * t] == cell_crossing(cells, cells, x, y, z, a));
        assert(all[3 * t + 1] == cell_crossing(cells, cells, x, y, z, b));
        assert(all[3 * t + 2] == cell_crossing(cells, cells, x, y, z, c));
    }
}

/// What holds of the corners of each cell, and so of all of them: they come in
/// threes, each triangle faces outward, and each crossing tells the truth of the
/// model.
spec fn corners_sound(cells: Cells, corners: Seq<EdgeCrossing>) -> bool {
    &&& corners.len() % 3 == 0
    &&& forall|t: int|
        0 <= t && 3 * t + 2 < corners.len() ==> #[trigger] faces_outward(corners, t)
    &&& forall|i: int|
        0 <= i < corners.len() ==> crossing_is_true(cells, cells, #[trigger] corners[i])
}

proof fn lemma_sound_concat(cells: Cells, a: Seq<EdgeCrossing>, b: Seq<EdgeCrossing>)
    requires
        corners_sound(cells, a),
        corners_sound(cells, b),
    ensures
        corners_sound(cells, a + b),
{
    let all = a + b;
    let n = a.len() as int / 3;
    assert forall|t: int| 0 <= t && 3 * t + 2 < all.len() implies #[trigger] faces_outward(
        all,
        t,
    ) by {
        if t < n {
            assert(faces_outward(a, t));
            assert(all[3 * t] == a[3 * t] && all[3 * t + 1] == a[3 * t + 1] && all[3 * t + 2] == a[3
                * t + 2]);
        } else {
            let u = t - n;
            assert(faces_outward(b, u));
            assert(all[3 * t] == b[3 * u] && all[3 * t + 1] == b[3 * u + 1] && all[3 * t + 2] == b[3
                * u + 2]);
        }
    }
    assert forall|i: int| 0 <= i < all.len() implies crossing_is_true(
        cells,
        cells,
        #[trigger] all[i],
    ) by {
        if i < a.len() {
            assert(all[i] == a[i]);
        } else {
            assert(all[i] == b[i - a.len()]);
        }
    }
}

proof fn lemma_cell_sound(cells: Cells, x: int, y: int, z: int)
    requires
        addressable_cell(x, y, z),
    ensures
        corners_sound(cells, cell_triangles(cells, x, y, z)),
{
    let all = cell_triangles(cells, x, y, z);
    let pattern = cell_pattern(cells, x, y, z);
    law_cell_triangles_face_outward(cells, x, y, z, 0);
    assert forall|t: int| 0 <= t && 3 * t + 2 < all.len() implies #[trigger] faces_outward(
        all,
        t,
    ) by {
        law_cell_triangles_face_outward(cells, x, y, z, t);
    }
    lemma_pattern_bits(cells, x, y, z);
    law_triangles_on_crossing_edges(pattern);
    assert forall|i: int| 0 <= i < all.len() implies crossing_is_true(
        cells,
        cells,
        #[trigger] all[i],
    ) by {
        law_crossing_is_true(cells, cells, x, y, z, tri_edges(pattern)[i]);
    }
}

proof fn lemma_row_sound(cells: Cells, x: int, y: int, z: int, n: nat)
    requires
        n > 0 ==> addressable_cell(x, y, z) && addressable_cell(x + n - 1, y, z),
    ensures
        corners_sound(cells, row_triangles(cells, x, y, z, n)),
    decreases n,
{
    if n > 0 {
        lemma_row_sound(cells, x, y, z, (n - 1) as nat);
        lemma_cell_sound(cells, x + n - 1, y, z);
        lemma_sound_concat(
            cells,
            row_triangles(cells, x, y, z, (n - 1) as nat),
            cell_triangles(cells, x + n - 1, y, z),
        );
    }
}

proof fn lemma_plane_sound(cells: Cells, x: int, y: int, z: int, w: nat, n: nat)
    requires
        w > 0,
        n > 0 ==> addressable_cell(x, y, z) && addressable_cell(x + w - 1, y + n - 1, z),
    ensures
        corners_sound(cells, plane_triangles(cells, x, y, z, w, n)),
    decreases n,
{
    if n > 0 {
        lemma_plane_sound(cells, x, y, z, w, (n - 1) as nat);
        lemma_row_sound(cells, x, y + n - 1, z, w);
        lemma_sound_concat(
            cells,
            plane_triangles(cells, x, y, z, w, (n - 1) as nat),
            row_triangles(cells, x, y + n - 1, z, w),
        );
    }
}

proof fn lemma_volume_sound(cells: Cells, x: int, y: int, z: int, w: nat, h: nat, n: nat)
    requires
        w > 0,
        h > 0,
        n > 0 ==> addressable_cell(x, y, z) && addressable_cell(x + w - 1, y + h - 1, z + n - 1),
    ensures
        corners_sound(cells, volume_triangles(cells, x, y, z, w, h, n)),
    decreases n,
{
    if n > 0 {
        lemma_volume_sound(cells, x, y, z, w, h, (n - 1) as nat);
        lemma_plane_sound(cells, x, y, z + n - 1, w, h);
        lemma_sound_concat(
            cells,
            volume_triangles(cells, x, y, z, w, h, (n - 1) as nat),
            plane_triangles(cells, x, y, z + n - 1, w, h),
        );
    }
}

/// Every triangle of the surface round a set of cells faces outward, from the filled
/// to the empty nodes, and each of its corners tells the truth of the model: its
/// nodes, their values, slopes and colour, and where the surface crosses between.
pub proof fn law_surface_faces_outward(cells: Cells)
    requires
        lattice_fits(cells.dom()),
        bounds(cells.dom(), low_corner(cells.dom()), high_corner(cells.dom())),
    ensures
        ({
            let all = surface_triangles(cells);
            &&& all.len() % 3 == 0
            &&& forall|t: int| 0 <= t && 3 * t + 2 < all.len() ==> #[trigger] faces_outward(all, t)
            &&& forall|i: int|
                0 <= i < all.len() ==> crossing_is_true(cells, cells, #[trigger] all[i])
        }),
{
    let lo = low_corner(cells.dom());
    let hi = high_corner(cells.dom());
    lemma_volume_sound(
        cells,
        lo.0 - 1,
        lo.1 - 1,
        lo.2 - 1,
        (node_count(lo.0, hi.0) - 1) as nat,
        (node_count(lo.1, hi.1) - 1) as nat,
        (node_count(lo.2, hi.2) - 1) as nat,
    );
}

/// The second list stands in the first, from some place on.
pub open spec fn stands_in(all: Seq<EdgeCrossing>, part: Seq<EdgeCrossing>) -> bool {
    exists|k: int|
        0 <= k && k + part.len() <= all.len() && part == #[trigger] all.subrange(
            k,
            k + part.len(),
        )
}

proof fn lemma_stands_in_sum(
    a: Seq<EdgeCrossing>,
    b: Seq<EdgeCrossing>,
    part: Seq<EdgeCrossing>,
)
    requires
        stands_in(a, part) || stands_in(b, part),
    ensures
        stands_in(a + b, part),
{
    let all = a + b;
    if stands_in(a, part) {
        let k = choose|k: int|
            0 <= k && k + part.len() <= a.len() && part == #[trigger] a.subrange(k, k + part.len());
        assert(all.subrange(k, k + part.len()) =~= a.subrange(k, k + part.len()));
    } else {
        let k = choose|k: int|
            0 <= k && k + part.len() <= b.len() && part == #[trigger] b.subrange(k, k + part.len());
        let j = a.len() + k;
        assert(all.subrange(j, j + part.len()) =~= b.subrange(k, k + part.len()));
    }
}

proof fn lemma_stands_in_itself(part: Seq<EdgeCrossing>)
    ensures
        stands_in(part, part),
{
    assert(part.subrange(0, 0int + part.len()) =~= part);
}

proof fn lemma_cell_in_row(cells: Cells, x: int, y: int, z: int, n: nat, i: int)
    requires
        0 <= i < n,
    ensures
        stands_in(row_triangles(cells, x, y, z, n), cell_triangles(cells, x + i, y, z)),
    decreases n,
{
    let part = cell_triangles(cells, x + i, y, z);
    if i < n - 1 {
        lemma_cell_in_row(cells, x, y, z, (n - 1) as nat, i);
    } else {
        lemma_stands_in_itself(part);
    }
    lemma_stands_in_sum(
        row_triangles(cells, x, y, z, (n - 1) as nat),
        cell_triangles(cells, x + n - 1, y, z),
        part,
    );
}

proof fn lemma_cell_in_plane(
    cells: Cells,
    x: int,
    y: int,
    z: int,
    w: nat,
    n: nat,
    i: int,
    j: int,
)
    requires
        0 <= i < w,
        0 <= j < n,
    ensures
        stands_in(plane_triangles(cells, x, y, z, w, n), cell_triangles(cells, x + i, y + j, z)),
    decreases n,
{
    let part = cell_triangles(cells, x + i, y + j, z);
    if j < n - 1 {
        lemma_cell_in_plane(cells, x, y, z, w, (n - 1) as nat, i, j);
    } else {
        lemma_cell_in_row(cells, x, y + j, z, w, i);
    }
    lemma_stands_in_sum(
        plane_triangles(cells, x, y, z, w, (n - 1) as nat),
        row_triangles(cells, x, y + n - 1, z, w),
        part,
    );
}

proof fn lemma_cell_in_volume(
    cells: Cells,
    x: int,
    y: int,
    z: int,
    w: nat,
    h: nat,
    n: nat,
    i: int,
    j: int,
    k: int,
)
    requires
        0 <= i < w,
        0 <= j < h,
        0 <= k < n,
    ensures
        stands_in(
            volume_triangles(cells, x, y, z, w, h, n),
            cell_triangles(cells, x + i, y + j, z + k),
        ),
    decreases n,
{
    let part = cell_triangles(cells, x + i, y + j, z + k);
    if k < n - 1 {
        lemma_cell_in_volume(cells, x, y, z, w, h, (n - 1) as nat, i, j, k);
    } else {
        lemma_cell_in_plane(cells, x, y, z + k, w, h, i, j);
    }
    lemma_stands_in_sum(
        volume_triangles(cells, x, y, z, w, h, (n - 1) as nat),
        plane_triangles(cells, x, y, z + n - 1, w, h),
        part,
    );
}

/// The triangles of every cell of nodes that has both empty and other nodes are in
/// the surface, wherever the cell is; so the surface has no gap in it.
pub proof fn law_no_cell_is_left_out(cells: Cells, x: int, y: int, z: int, c: int)
    requires
        bounds(cells.dom(), low_corner(cells.dom()), high_corner(cells.dom())),
        0 <= c < 8,
        !corner_empty(cells, x, y, z, c),
    ensures
        stands_in(surface_triangles(cells), cell_triangles(cells, x, y, z)),
{
    let lo = low_corner(cells.dom());
    let hi = high_corner(cells.dom());
    let o = corner_off(c);
    if x + o.0 < lo.0 || x + o.0 > hi.0 + 1 || y + o.1 < lo.1 || y + o.1 > hi.1 + 1 || z + o.2
        < lo.2 || z + o.2 > hi.2 + 1 {
        law_lattice_border_is_empty(cells, x + o.0, y + o.1, z + o.2);
    }
    lemma_cell_in_volume(
        cells,
        lo.0 - 1,
        lo.1 - 1,
        lo.2 - 1,
        (node_count(lo.0, hi.0) - 1) as nat,
        (node_count(lo.1, hi.1) - 1) as nat,
        (node_count(lo.2, hi.2) - 1) as nat,
        x - (lo.0 - 1),
        y - (lo.1 - 1),
        z - (lo.2 - 1),
    );
}

/// Welding keeps every corner of every triangle in its place in the list: the vertex
/// that it names stands where the crossing is, in millionths of a cell on each axis,
/// half a cell above the node coordinates.
pub proof fn law_welding_keeps_the_triangles(
    samples: Seq<EdgeCrossing>,
    material: MaterialId,
    i: int,
)
    requires
        0 <= i < samples.len(),
    ensures
        ({
            let w = welded(samples, material);
            let c = samples[i];
            let (a, b) = (c.node_a, c.node_b);
            let at = w.vertices[w.indices[i]].place;
            &&& w.indices.len() == samples.len()
            &&& 0 <= w.indices[i] < w.vertices.len()
            &&& w.samples[i] == c && w.owners[i] == w.indices[i]
            &&& at.0 == millionths(1680 * a.0 + 840 + (b.0 - a.0) * c.step)
            &&& at.1 == millionths(1680 * a.1 + 840 + (b.1 - a.1) * c.step)
            &&& at.2 == millionths(1680 * a.2 + 840 + (b.2 - a.2) * c.step)
            &&& w.vertices[w.indices[i]].material == material
        }),
{
    law_welded(samples, material);
    let w = welded(samples, material);
    assert(w.vertices[w.owners[i]].place == position_key(samples[i]));
    lemma_millionths_fit(axis_steps(
        samples[i].node_a.0 as int,
        samples[i].node_b.0 as int,
        samples[i].step as int,
    ));
    lemma_millionths_fit(axis_steps(
        samples[i].node_a.1 as int,
        samples[i].node_b.1 as int,
        samples[i].step as int,
    ));
    lemma_millionths_fit(axis_steps(
        samples[i].node_a.2 as int,
        samples[i].node_b.2 as int,
        samples[i].step as int,
    ));
}

proof fn lemma_millionths_fit(steps: int)
    ensures
        i32::MIN <= millionths(steps) <= i32::MAX,
{
}

} // verus!
