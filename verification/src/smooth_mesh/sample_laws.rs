//! What the crossings of a dual contouring surface, the buckets of a model and the
//! parts of a merged surface are, said by the cells and voxels they come from.

use vstd::prelude::*;

use crate::smooth_mesh::buckets::{
    all_positions, bucket_cells, bucket_key, bucket_keys, bucket_positions, contoured_part,
    lemma_all_positions, lemma_bucket_positions, marched_part, model_cells,
};
use crate::smooth_mesh::contour::{
    cell_owners, cell_samples, contoured, edge_crossed, hermite, lemma_surface_cells,
    surface_cells,
};
use crate::smooth_mesh::crossing::{
    cell_crossing, corner_off, edge_ends, law_node_value_range,
};
use crate::smooth_mesh::lattice::{
    bounds, high_corner, lattice_fits, low_corner, node_value, Cells,
};
use crate::smooth_mesh::marching::millionths;
use crate::smooth_mesh::slope_laws::{crossing_is_true, law_crossing_is_true};
use crate::smooth_mesh::surface::{joined, merged, Surface};
use crate::voxelle::{coord_of, material_of_rank, material_rank, MaterialId, Voxel, VoxelCoord};

verus! {

/// The edge that a crossing of a cell lies on.
proof fn lemma_edge_of(
    color: Cells,
    occupancy: Cells,
    x: int,
    y: int,
    z: int,
    n: nat,
    i: int,
) -> (e: int)
    requires
        0 <= i < hermite(color, occupancy, x, y, z, n).len(),
    ensures
        0 <= e < n,
        edge_crossed(occupancy, x, y, z, e),
        hermite(color, occupancy, x, y, z, n)[i] == cell_crossing(color, occupancy, x, y, z, e),
    decreases n,
{
    let m = (n - 1) as nat;
    if i < hermite(color, occupancy, x, y, z, m).len() {
        lemma_edge_of(color, occupancy, x, y, z, m, i)
    } else {
        n - 1
    }
}

/// The place of the crossing of an edge among those of its cell.
proof fn lemma_place_of_edge(
    color: Cells,
    occupancy: Cells,
    x: int,
    y: int,
    z: int,
    n: nat,
    e: int,
) -> (i: int)
    requires
        0 <= e < n,
        edge_crossed(occupancy, x, y, z, e),
    ensures
        0 <= i < hermite(color, occupancy, x, y, z, n).len(),
        hermite(color, occupancy, x, y, z, n)[i] == cell_crossing(color, occupancy, x, y, z, e),
    decreases n,
{
    let m = (n - 1) as nat;
    if e < m {
        lemma_place_of_edge(color, occupancy, x, y, z, m, e)
    } else {
        hermite(color, occupancy, x, y, z, m).len() as int
    }
}

/// A sample is a crossing of the cell that it belongs to.
proof fn lemma_sample(color: Cells, occupancy: Cells, places: Seq<VoxelCoord>, i: int) -> (e: int)
    requires
        0 <= i < cell_samples(color, occupancy, places).len(),
    ensures
        cell_owners(color, occupancy, places).len() == cell_samples(
            color,
            occupancy,
            places,
        ).len(),
        0 <= e < 12,
        ({
            let o = cell_owners(color, occupancy, places)[i];
            let c = places[o];
            &&& 0 <= o < places.len()
            &&& edge_crossed(occupancy, c.0 as int, c.1 as int, c.2 as int, e)
            &&& cell_samples(color, occupancy, places)[i] == cell_crossing(
                color,
                occupancy,
                c.0 as int,
                c.1 as int,
                c.2 as int,
                e,
            )
        }),
    decreases places.len(),
{
    let head = places.drop_last();
    let c = places.last();
    lemma_lengths(color, occupancy, head);
    lemma_lengths(color, occupancy, places);
    let before = cell_samples(color, occupancy, head).len();
    if i < before {
        let e = lemma_sample(color, occupancy, head, i);
        assert(places[cell_owners(color, occupancy, head)[i]] == head[cell_owners(
            color,
            occupancy,
            head,
        )[i]]);
        e
    } else {
        lemma_edge_of(
            color,
            occupancy,
            c.0 as int,
            c.1 as int,
            c.2 as int,
            12,
            i - before,
        )
    }
}

proof fn lemma_lengths(color: Cells, occupancy: Cells, places: Seq<VoxelCoord>)
    ensures
        cell_owners(color, occupancy, places).len() == cell_samples(
            color,
            occupancy,
            places,
        ).len(),
    decreases places.len(),
{
    if places.len() > 0 {
        lemma_lengths(color, occupancy, places.drop_last());
    }
}

/// Every crossed edge of a listed cell has a sample that belongs to the cell.
proof fn lemma_sample_of(
    color: Cells,
    occupancy: Cells,
    places: Seq<VoxelCoord>,
    o: int,
    e: int,
) -> (i: int)
    requires
        0 <= o < places.len(),
        0 <= e < 12,
        edge_crossed(occupancy, places[o].0 as int, places[o].1 as int, places[o].2 as int, e),
    ensures
        0 <= i < cell_samples(color, occupancy, places).len(),
        i < cell_owners(color, occupancy, places).len(),
        cell_owners(color, occupancy, places)[i] == o,
        cell_samples(color, occupancy, places)[i] == cell_crossing(
            color,
            occupancy,
            places[o].0 as int,
            places[o].1 as int,
            places[o].2 as int,
            e,
        ),
    decreases places.len(),
{
    let head = places.drop_last();
    let c = places.last();
    lemma_lengths(color, occupancy, head);
    if o < head.len() {
        lemma_sample_of(color, occupancy, head, o, e)
    } else {
        let j = lemma_place_of_edge(
            color,
            occupancy,
            c.0 as int,
            c.1 as int,
            c.2 as int,
            12,
            e,
        );
        cell_samples(color, occupancy, head).len() + j
    }
}

/// A node is one of the eight corners of the cell of nodes at `c`.
pub open spec fn corner_of_cell(c: VoxelCoord, n: VoxelCoord) -> bool {
    c.0 <= n.0 <= c.0 + 1 && c.1 <= n.1 <= c.1 + 1 && c.2 <= n.2 <= c.2 + 1
}

/// Each sample of a dual contouring surface tells the truth of the model, joins an
/// empty node to one that is not, and both are corners of the cell of the vertex
/// that the sample belongs to.
pub proof fn law_samples_are_crossings_of_their_cell(
    color: Cells,
    occupancy: Cells,
    material: MaterialId,
    i: int,
)
    requires
        lattice_fits(occupancy.dom()),
        bounds(occupancy.dom(), low_corner(occupancy.dom()), high_corner(occupancy.dom())),
        0 <= i < contoured(color, occupancy, material).samples.len(),
    ensures
        ({
            let s = contoured(color, occupancy, material);
            let x = s.samples[i];
            let c = s.vertices[s.owners[i]].place;
            &&& 0 <= s.owners[i] < s.vertices.len()
            &&& crossing_is_true(color, occupancy, x)
            &&& (x.value_a == 0) != (x.value_b == 0)
            &&& corner_of_cell(c, x.node_a)
            &&& corner_of_cell(c, x.node_b)
        }),
{
    let places = surface_cells(occupancy);
    let e = lemma_sample(color, occupancy, places, i);
    let o = cell_owners(color, occupancy, places)[i];
    let c = places[o];
    lemma_surface_cells(occupancy);
    assert(places.contains(c));
    law_crossing_is_true(color, occupancy, c.0 as int, c.1 as int, c.2 as int, e);
    let (p, q) = (corner_off(edge_ends(e).0), corner_off(edge_ends(e).1));
    law_node_value_range(occupancy, c.0 + p.0, c.1 + p.1, c.2 + p.2);
    law_node_value_range(occupancy, c.0 + q.0, c.1 + q.1, c.2 + q.2);
}

/// Wherever the surface crosses an edge of the cell of a vertex, between two
/// corners that are one step apart, a sample of that vertex tells of it.
pub proof fn law_no_crossing_of_a_vertex_is_left_out(
    color: Cells,
    occupancy: Cells,
    material: MaterialId,
    o: int,
    a: VoxelCoord,
    b: VoxelCoord,
)
    requires
        lattice_fits(occupancy.dom()),
        bounds(occupancy.dom(), low_corner(occupancy.dom()), high_corner(occupancy.dom())),
        0 <= o < contoured(color, occupancy, material).vertices.len(),
        ({
            let c = contoured(color, occupancy, material).vertices[o].place;
            corner_of_cell(c, a) && corner_of_cell(c, b)
        }),
        a.0 + 1 == b.0 && a.1 == b.1 && a.2 == b.2 || a.0 == b.0 && a.1 + 1 == b.1 && a.2 == b.2
            || a.0 == b.0 && a.1 == b.1 && a.2 + 1 == b.2,
        (node_value(occupancy, a.0 as int, a.1 as int, a.2 as int) == 0) != (node_value(
            occupancy,
            b.0 as int,
            b.1 as int,
            b.2 as int,
        ) == 0),
    ensures
        ({
            let s = contoured(color, occupancy, material);
            exists|i: int|
                {
                    &&& 0 <= i < s.samples.len()
                    &&& s.owners[i] == o
                    &&& (#[trigger] s.samples[i]).node_a == a && s.samples[i].node_b == b
                        || s.samples[i].node_a == b && s.samples[i].node_b == a
                }
        }),
{
    let places = surface_cells(occupancy);
    let c = places[o];
    let e: int = if a.0 + 1 == b.0 {
        if a.2 == c.2 {
            if a.1 == c.1 {
                0
            } else {
                2
            }
        } else {
            if a.1 == c.1 {
                4
            } else {
                6
            }
        }
    } else if a.1 + 1 == b.1 {
        if a.2 == c.2 {
            if a.0 == c.0 {
                3
            } else {
                1
            }
        } else {
            if a.0 == c.0 {
                7
            } else {
                5
            }
        }
    } else {
        if a.1 == c.1 {
            if a.0 == c.0 {
                8
            } else {
                9
            }
        } else {
            if a.0 == c.0 {
                11
            } else {
                10
            }
        }
    };
    assert(edge_crossed(occupancy, c.0 as int, c.1 as int, c.2 as int, e));
    let i = lemma_sample_of(color, occupancy, places, o, e);
    let s = contoured(color, occupancy, material);
    assert(s.samples[i].node_a == a && s.samples[i].node_b == b || s.samples[i].node_a == b
        && s.samples[i].node_b == a);
}

/// A bucket fills the cells of the voxels that have its colour and its material, and
/// no others, all in its colour.
pub proof fn law_bucket_is_of_one_color_and_material(
    voxels: Seq<Voxel>,
    color: u32,
    material: MaterialId,
    c: VoxelCoord,
)
    requires
        voxels.len() <= usize::MAX,
    ensures
        ({
            let cells = bucket_cells(voxels, (color, material_rank(material) as u8));
            &&& cells.contains_key(c) <==> exists|i: int|
                0 <= i < voxels.len() && coord_of(#[trigger] voxels[i]) == c && voxels[i].color
                    == color && voxels[i].material == material
            &&& cells.contains_key(c) ==> cells[c] == color
        }),
{
    let k = (color, material_rank(material) as u8);
    lemma_bucket_positions(voxels, k);
    let cells = bucket_cells(voxels, k);
    if cells.contains_key(c) {
        assert(bucket_positions(voxels, k).contains_key(c));
        let i = bucket_positions(voxels, k)[c] as int;
        assert(bucket_key(voxels[i]) == k);
        assert(material_rank(voxels[i].material) == material_rank(material));
        assert(coord_of(voxels[i]) == c);
    }
    if exists|i: int|
        0 <= i < voxels.len() && coord_of(#[trigger] voxels[i]) == c && voxels[i].color == color
            && voxels[i].material == material {
        let i = choose|i: int|
            0 <= i < voxels.len() && coord_of(#[trigger] voxels[i]) == c && voxels[i].color == color
                && voxels[i].material == material;
        assert(bucket_key(voxels[i]) == k);
        assert(bucket_positions(voxels, k).contains_key(coord_of(voxels[i])));
    }
}

/// The model fills the cells of its voxels and no others.
pub proof fn law_model_fills_the_cells_of_its_voxels(voxels: Seq<Voxel>, c: VoxelCoord)
    requires
        voxels.len() <= usize::MAX,
    ensures
        model_cells(voxels).contains_key(c) <==> exists|i: int|
            0 <= i < voxels.len() && coord_of(#[trigger] voxels[i]) == c,
{
    lemma_all_positions(voxels);
    lemma_model_positions(voxels, c);
    if exists|i: int| 0 <= i < voxels.len() && coord_of(#[trigger] voxels[i]) == c {
        let i = choose|i: int| 0 <= i < voxels.len() && coord_of(#[trigger] voxels[i]) == c;
        assert(all_positions(voxels).contains_key(coord_of(voxels[i])));
    }
    if all_positions(voxels).contains_key(c) {
        let i = all_positions(voxels)[c] as int;
        assert(coord_of(voxels[i]) == c);
    }
}

proof fn lemma_model_positions(voxels: Seq<Voxel>, c: VoxelCoord)
    requires
        voxels.len() <= usize::MAX,
    ensures
        all_positions(voxels).contains_key(c) ==> all_positions(voxels)[c] < voxels.len()
            && coord_of(voxels[all_positions(voxels)[c] as int]) == c,
    decreases voxels.len(),
{
    if voxels.len() > 0 {
        lemma_model_positions(voxels.drop_last(), c);
    }
}

/// Vertices of the parts before part `p`.
pub open spec fn vertices_before(parts: Seq<Surface>, p: int) -> int
    decreases p,
{
    if p <= 0 {
        0
    } else {
        vertices_before(parts, p - 1) + parts[p - 1].vertices.len()
    }
}

/// Merging keeps each vertex of each part, after all those of the parts before.
pub proof fn law_merged_keeps_the_vertices(parts: Seq<Surface>, p: int, i: int)
    requires
        0 <= p < parts.len(),
        0 <= i < parts[p].vertices.len(),
    ensures
        0 <= vertices_before(parts, p),
        vertices_before(parts, p) + i < merged(parts).vertices.len(),
        merged(parts).vertices[vertices_before(parts, p) + i] == parts[p].vertices[i],
    decreases parts.len(),
{
    let head = parts.drop_last();
    lemma_vertices_before(parts);
    lemma_vertices_before_head(parts, p);
    assert(merged(parts) == joined(merged(head), parts.last()));
    if p < head.len() {
        law_merged_keeps_the_vertices(head, p, i);
    }
}

proof fn lemma_vertices_before(parts: Seq<Surface>)
    ensures
        vertices_before(parts, parts.len() as int) == merged(parts).vertices.len(),
        parts.len() > 0 ==> vertices_before(parts, parts.len() - 1) == merged(
            parts.drop_last(),
        ).vertices.len(),
    decreases parts.len(),
{
    if parts.len() > 0 {
        lemma_vertices_before(parts.drop_last());
        lemma_vertices_before_head(parts, parts.len() - 1);
    }
}

proof fn lemma_vertices_before_head(parts: Seq<Surface>, p: int)
    requires
        p < parts.len(),
    ensures
        vertices_before(parts, p) == vertices_before(parts.drop_last(), p),
        0 <= vertices_before(parts, p),
    decreases p,
{
    if p > 0 {
        lemma_vertices_before_head(parts, p - 1);
    }
}

/// Triangle corners of the parts before part `p`.
pub open spec fn corners_before(parts: Seq<Surface>, p: int) -> int
    decreases p,
{
    if p <= 0 {
        0
    } else {
        corners_before(parts, p - 1) + parts[p - 1].indices.len()
    }
}

proof fn lemma_corners_before(parts: Seq<Surface>)
    ensures
        corners_before(parts, parts.len() as int) == merged(parts).indices.len(),
        parts.len() > 0 ==> corners_before(parts, parts.len() - 1) == merged(
            parts.drop_last(),
        ).indices.len(),
    decreases parts.len(),
{
    if parts.len() > 0 {
        lemma_corners_before(parts.drop_last());
        lemma_corners_before_head(parts, parts.len() - 1);
    }
}

proof fn lemma_corners_before_head(parts: Seq<Surface>, p: int)
    requires
        p < parts.len(),
    ensures
        corners_before(parts, p) == corners_before(parts.drop_last(), p),
        0 <= corners_before(parts, p),
    decreases p,
{
    if p > 0 {
        lemma_corners_before_head(parts, p - 1);
    }
}

/// Merging keeps each triangle corner of each part, in order after those of the parts
/// before, on the vertex that the part names.
pub proof fn law_merged_keeps_the_triangles(parts: Seq<Surface>, p: int, j: int)
    requires
        0 <= p < parts.len(),
        0 <= j < parts[p].indices.len(),
    ensures
        0 <= corners_before(parts, p),
        corners_before(parts, p) + j < merged(parts).indices.len(),
        merged(parts).indices[corners_before(parts, p) + j] == vertices_before(parts, p)
            + parts[p].indices[j],
    decreases parts.len(),
{
    let head = parts.drop_last();
    lemma_vertices_before(parts);
    lemma_vertices_before_head(parts, p);
    lemma_corners_before(parts);
    lemma_corners_before_head(parts, p);
    assert(merged(parts) == joined(merged(head), parts.last()));
    if p < head.len() {
        law_merged_keeps_the_triangles(head, p, j);
    }
}

/// A bucket has a surface exactly where a voxel has its colour and material, and all
/// vertices of the surface are of that material.
pub proof fn law_parts_are_of_their_material(
    voxels: Seq<Voxel>,
    color: u32,
    material: MaterialId,
)
    ensures
        ({
            let k = (color, material_rank(material) as u8);
            let there = exists|i: int|
                0 <= i < voxels.len() && (#[trigger] voxels[i]).color == color
                    && voxels[i].material == material;
            &&& marched_part(voxels, k) is Some <==> there
            &&& contoured_part(voxels, k) is Some <==> there
            &&& there ==> forall|v: int|
                0 <= v < (marched_part(voxels, k)->0).vertices.len() ==> (#[trigger] (marched_part(
                    voxels,
                    k,
                )->0).vertices[v]).material == material
            &&& there ==> forall|v: int|
                0 <= v < (contoured_part(voxels, k)->0).vertices.len() ==> (
                #[trigger] (contoured_part(voxels, k)->0).vertices[v]).material == material
        }),
{
    let k = (color, material_rank(material) as u8);
    if exists|i: int|
        0 <= i < voxels.len() && (#[trigger] voxels[i]).color == color && voxels[i].material
            == material {
        let i = choose|i: int|
            0 <= i < voxels.len() && (#[trigger] voxels[i]).color == color && voxels[i].material
                == material;
        assert(bucket_key(voxels[i]) == k);
    }
    if bucket_keys(voxels).contains(k) {
        let i = choose|i: int| 0 <= i < voxels.len() && bucket_key(#[trigger] voxels[i]) == k;
        assert(material_rank(voxels[i].material) == material_rank(material));
        assert(voxels[i].material == material);
        assert(material_of_rank(k.1 as int) == material);
    }
}

/// The buckets of a model share one dual contouring surface, that of the whole model:
/// the same places and the same triangles, whatever their colours.
pub proof fn law_parts_share_the_surface_of_the_model(
    voxels: Seq<Voxel>,
    k: (u32, u8),
    l: (u32, u8),
)
    requires
        bucket_keys(voxels).contains(k),
        bucket_keys(voxels).contains(l),
    ensures
        ({
            let a = contoured_part(voxels, k)->0;
            let b = contoured_part(voxels, l)->0;
            &&& a.indices == b.indices
            &&& a.vertices.len() == b.vertices.len()
            &&& forall|v: int|
                0 <= v < a.vertices.len() ==> (#[trigger] a.vertices[v]).place
                    == b.vertices[v].place
        }),
{
}

/// Rounding to millionths of a cell is off by at most half of one, and goes the same
/// way on both sides of the origin, as long as the result can be addressed.
pub proof fn law_positions_are_rounded_to_the_nearest(steps: int)
    requires
        -3_600_000 <= steps <= 3_600_000,
    ensures
        -840 <= millionths(steps) * 1680 - steps * 1_000_000 <= 840,
        millionths(-steps) == -millionths(steps),
{
}

} // verus!
