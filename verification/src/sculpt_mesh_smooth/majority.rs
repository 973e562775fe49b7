//! The majority pass: cells of a footprint are filled or emptied by the number of
//! filled cells round them.

use vstd::prelude::*;

use crate::collections::{coord_map_get, entries, CoordMap};
use crate::distinct::{first_occurrences, unique_cells};
use crate::sculpt_mesh_smooth::blend::{blend_voxels_for_smooth, blended};
use crate::sculpt_mesh_smooth::thresholds::{max_filled, min_filled, smooth_thresholds};
use crate::smooth_mesh::lattice::{law_node_index, node_index};
use crate::voxel_index::{
    append_voxel, apply_delta, cells_distinct, contents, indexes, law_push_contents,
    law_swap_removed_contents, lemma_lookup, occupied, position_of, remove_voxel_at, replay,
    swap_removed, voxel_at,
};
use crate::voxelle::{
    coord_of, in_grid, in_grid_bounds, GridRange, MaterialId, Voxel, VoxelCoord, VoxelEditDelta,
    VoxelleFile,
};

verus! {

/// Greatest radius of the neighbourhood.
pub const SMOOTH_NEIGHBOR_RADIUS_MAX: u32 = 6;

/// Radius of the neighbourhood that is asked for, at most the greatest.
pub open spec fn smooth_radius(neighbor_radius: u32) -> int {
    if neighbor_radius < 6 {
        neighbor_radius as int
    } else {
        6
    }
}

/// Offset of candidate `k` of the cube of `side` cells a side round a cell.
pub open spec fn cube_offset(k: int, r: int) -> (int, int, int) {
    let side = 2 * r + 1;
    (k % side - r, k / side % side - r, k / side / side - r)
}

/// Offset of one of the six cells beside a cell.
pub open spec fn side_offset(k: int) -> (int, int, int) {
    if k == 0 {
        (1, 0, 0)
    } else if k == 1 {
        (-1, 0, 0)
    } else if k == 2 {
        (0, 1, 0)
    } else if k == 3 {
        (0, -1, 0)
    } else if k == 4 {
        (0, 0, 1)
    } else {
        (0, 0, -1)
    }
}

/// Candidate `k` for a neighbour of a cell: with radius zero one of the six cells
/// beside it, else one of the cube round it.
pub open spec fn candidate(c: VoxelCoord, r: int, k: int) -> (int, int, int) {
    let o = if r == 0 {
        side_offset(k)
    } else {
        cube_offset(k, r)
    };
    (c.0 + o.0, c.1 + o.1, c.2 + o.2)
}

/// Number of candidates for neighbours.
pub open spec fn candidate_count(r: int) -> int {
    if r == 0 {
        6
    } else {
        (2 * r + 1) * (2 * r + 1) * (2 * r + 1)
    }
}

/// A candidate is a neighbour: it is in the grid and not the cell itself.
pub open spec fn is_slot(c: VoxelCoord, n: (int, int, int), grid: GridRange) -> bool {
    &&& !(n.0 == c.0 && n.1 == c.1 && n.2 == c.2)
    &&& grid.lo <= n.0 <= grid.hi
    &&& grid.lo <= n.1 <= grid.hi
    &&& grid.lo <= n.2 <= grid.hi
}

/// The neighbours of a cell among its first `n` candidates.
pub open spec fn slots(c: VoxelCoord, r: int, grid: GridRange, n: nat) -> Seq<VoxelCoord>
    decreases n,
{
    if n == 0 {
        seq![]
    } else {
        let head = slots(c, r, grid, (n - 1) as nat);
        let d = candidate(c, r, n - 1);
        if is_slot(c, d, grid) {
            head.push((d.0 as i32, d.1 as i32, d.2 as i32))
        } else {
            head
        }
    }
}

/// The neighbours of a cell: the cells of the grid round it.
pub open spec fn neighbor_slots(c: VoxelCoord, r: int, grid: GridRange) -> Seq<VoxelCoord> {
    slots(c, r, grid, candidate_count(r) as nat)
}

/// The voxels that fill cells of a list.
pub open spec fn voxels_in(voxels: Seq<Voxel>, cells: Seq<VoxelCoord>) -> Seq<Voxel>
    decreases cells.len(),
{
    if cells.len() == 0 {
        seq![]
    } else {
        let head = voxels_in(voxels, cells.drop_last());
        if occupied(voxels, cells.last()) {
            head.push(voxel_at(voxels, cells.last()))
        } else {
            head
        }
    }
}

/// What the pass does to the model at one cell, and what it records of it.
pub open spec fn majority_step(
    voxels: Seq<Voxel>,
    c: VoxelCoord,
    grid: GridRange,
    r: int,
    aggressiveness: u32,
    active_object_id: u32,
) -> (Seq<Voxel>, Option<VoxelEditDelta>) {
    let near_cells = neighbor_slots(c, r, grid);
    let near = voxels_in(voxels, near_cells);
    let count = near_cells.len() as int;
    if !in_grid(c, grid) || count == 0 {
        (voxels, None)
    } else if !occupied(voxels, c) && near.len() >= min_filled(count, aggressiveness) {
        let v = Voxel {
            x: c.0,
            y: c.1,
            z: c.2,
            color: blended(near).0 as u32,
            material: blended(near).1,
            object_id: active_object_id,
        };
        (voxels.push(v), Some(VoxelEditDelta::Added(v)))
    } else if occupied(voxels, c) && near.len() <= max_filled(count, aggressiveness) {
        (
            swap_removed(voxels, position_of(voxels, c)),
            Some(VoxelEditDelta::Removed { voxel: voxel_at(voxels, c) }),
        )
    } else {
        (voxels, None)
    }
}

/// The model after the pass has gone over a list of cells, and what it recorded.
pub open spec fn majority_pass(
    voxels: Seq<Voxel>,
    cells: Seq<VoxelCoord>,
    grid: GridRange,
    r: int,
    aggressiveness: u32,
    active_object_id: u32,
) -> (Seq<Voxel>, Seq<VoxelEditDelta>)
    decreases cells.len(),
{
    if cells.len() == 0 {
        (voxels, seq![])
    } else {
        let (v, d) = majority_pass(
            voxels,
            cells.drop_last(),
            grid,
            r,
            aggressiveness,
            active_object_id,
        );
        let (v2, e) = majority_step(v, cells.last(), grid, r, aggressiveness, active_object_id);
        (
            v2,
            match e {
                Some(e) => d.push(e),
                None => d,
            },
        )
    }
}

/// Neighbours of cells of the grid can be addressed.
pub open spec fn grid_fits(grid: GridRange) -> bool {
    i32::MIN + 6 <= grid.lo && grid.hi <= i32::MAX - 6
}

proof fn lemma_candidate_count(r: int)
    requires
        0 <= r <= 6,
    ensures
        0 < candidate_count(r) <= 2197,
{
    assert(r == 0 || r == 1 || r == 2 || r == 3 || r == 4 || r == 5 || r == 6);
    if r == 1 {
        assert(candidate_count(1) == 27) by (nonlinear_arith);
    } else if r == 2 {
        assert(candidate_count(2) == 125) by (nonlinear_arith);
    } else if r == 3 {
        assert(candidate_count(3) == 343) by (nonlinear_arith);
    } else if r == 4 {
        assert(candidate_count(4) == 729) by (nonlinear_arith);
    } else if r == 5 {
        assert(candidate_count(5) == 1331) by (nonlinear_arith);
    } else if r == 6 {
        assert(candidate_count(6) == 2197) by (nonlinear_arith);
    }
}

/// The neighbours of a cell: the cells of the grid round it.
fn collect_slots(c: VoxelCoord, r: i32, grid: GridRange) -> (out: Vec<VoxelCoord>)
    requires
        0 <= r <= 6,
        in_grid(c, grid),
        grid_fits(grid),
    ensures
        out@ == neighbor_slots(c, r as int, grid),
        out@.len() <= 2197,
{
    let side: i32 = 2 * r + 1;
    proof {
        lemma_candidate_count(r as int);
        assert(side * side <= 169) by (nonlinear_arith)
            requires
                1 <= side <= 13,
        ;
        assert(side * side * side <= 2197) by (nonlinear_arith)
            requires
                1 <= side <= 13,
                0 <= side * side <= 169,
        ;
        assert(0 <= side * side) by (nonlinear_arith)
            requires
                1 <= side <= 13,
        ;
        assert(0 <= side * side * side) by (nonlinear_arith)
            requires
                1 <= side <= 13,
                0 <= side * side <= 169,
        ;
    }
    let total: i32 = if r == 0 {
        6
    } else {
        side * side * side
    };
    let mut out: Vec<VoxelCoord> = Vec::new();
    let mut k: i32 = 0;
    while k < total
        invariant
            0 <= r <= 6,
            in_grid(c, grid),
            grid_fits(grid),
            side == 2 * r + 1,
            total == candidate_count(r as int),
            0 <= k <= total <= 2197,
            out@ == slots(c, r as int, grid, k as nat),
            out@.len() <= k,
        decreases total - k,
    {
        let o: (i32, i32, i32) = if r == 0 {
            match k {
                0 => (1, 0, 0),
                1 => (-1, 0, 0),
                2 => (0, 1, 0),
                3 => (0, -1, 0),
                4 => (0, 0, 1),
                _ => (0, 0, -1),
            }
        } else {
            proof {
                lemma_cube_offset_range(k as int, r as int);
            }
            (k % side - r, k / side % side - r, k / side / side - r)
        };
        let d: VoxelCoord = (c.0 + o.0, c.1 + o.1, c.2 + o.2);
        let same = o.0 == 0 && o.1 == 0 && o.2 == 0;
        if !same && in_grid_bounds(d.0, d.1, d.2, grid) {
            out.push(d);
        }
        k += 1;
    }
    out
}

proof fn lemma_cube_offset_range(k: int, r: int)
    requires
        1 <= r <= 6,
        0 <= k < candidate_count(r),
    ensures
        -r <= cube_offset(k, r).0 <= r,
        -r <= cube_offset(k, r).1 <= r,
        -r <= cube_offset(k, r).2 <= r,
{
    let side = 2 * r + 1;
    assert(0 <= k / side < side * side) by (nonlinear_arith)
        requires
            0 <= k < side * side * side,
            side > 0,
    ;
    let q = k / side;
    assert(0 <= q / side < side) by (nonlinear_arith)
        requires
            0 <= q < side * side,
            side > 0,
    ;
}

/// The voxels that fill cells of a list.
pub(crate) fn collect_voxels(
    voxels: &Vec<Voxel>,
    map: &CoordMap,
    cells: &Vec<VoxelCoord>,
) -> (out: Vec<Voxel>)
    requires
        indexes(entries(*map), voxels@),
    ensures
        out@ == voxels_in(voxels@, cells@),
        out@.len() <= cells@.len(),
        forall|j: int| 0 <= j < out@.len() ==> cells@.contains(coord_of(#[trigger] out@[j])),
{
    let mut out: Vec<Voxel> = Vec::new();
    let mut i: usize = 0;
    assert(cells@.take(0) =~= Seq::<VoxelCoord>::empty());
    while i < cells.len()
        invariant
            0 <= i <= cells@.len(),
            indexes(entries(*map), voxels@),
            out@ == voxels_in(voxels@, cells@.take(i as int)),
            out@.len() <= i,
            forall|j: int| 0 <= j < out@.len() ==> cells@.contains(coord_of(#[trigger] out@[j])),
        decreases cells@.len() - i,
    {
        let c: VoxelCoord = cells[i];
        proof {
            assert(cells@[i as int] == c);
            assert(cells@.take(i as int + 1).drop_last() =~= cells@.take(i as int));
            lemma_lookup(entries(*map), voxels@, c);
        }
        if let Some(idx) = coord_map_get(map, &c) {
            out.push(voxels[idx]);
        }
        i += 1;
    }
    assert(cells@.take(i as int) =~= cells@);
    out
}

/// The majority pass at one cell.
fn smooth_cell(
    voxels: &mut Vec<Voxel>,
    map: &mut CoordMap,
    c: VoxelCoord,
    grid: GridRange,
    r: i32,
    aggressiveness: u32,
    active_object_id: u32,
) -> (delta: Option<VoxelEditDelta>)
    requires
        indexes(entries(*old(map)), old(voxels)@),
        0 <= r <= 6,
        grid_fits(grid),
    ensures
        indexes(entries(*final(map)), final(voxels)@),
        (final(voxels)@, delta) == majority_step(
            old(voxels)@,
            c,
            grid,
            r as int,
            aggressiveness,
            active_object_id,
        ),
{
    if !in_grid_bounds(c.0, c.1, c.2, grid) {
        return None;
    }
    let near_cells = collect_slots(c, r, grid);
    let near = collect_voxels(voxels, map, &near_cells);
    proof {
        lemma_lookup(entries(*map), voxels@, c);
    }
    let filled = coord_map_get(map, &c).is_some();
    if near_cells.len() == 0 {
        return None;
    }
    let count: i32 = near_cells.len() as i32;
    let filled_count: i32 = near.len() as i32;
    let (min_to_add, max_to_remove) = smooth_thresholds(count, aggressiveness);
    if !filled && filled_count >= min_to_add {
        let (color, material) = blend_voxels_for_smooth(near.as_slice());
        let v = Voxel {
            x: c.0,
            y: c.1,
            z: c.2,
            color,
            material,
            object_id: active_object_id,
        };
        append_voxel(voxels, map, v);
        Some(VoxelEditDelta::Added(v))
    } else if filled && filled_count <= max_to_remove {
        match remove_voxel_at(voxels, map, c) {
            Some(voxel) => Some(VoxelEditDelta::Removed { voxel }),
            None => None,
        }
    } else {
        None
    }
}

/// One majority pass over the cells of a footprint, each once. The records say
/// what changed, in order. The stroke's colour and material take no part in it.
pub fn apply_sculpt_smooth_majority_pass(
    file: &mut VoxelleFile,
    voxel_map: &mut CoordMap,
    footprint: &[VoxelCoord],
    grid: GridRange,
    neighbor_radius: u32,
    aggressiveness: u32,
    _stroke_color: u32,
    _stroke_material: MaterialId,
) -> (out: Vec<VoxelEditDelta>)
    requires
        indexes(entries(*old(voxel_map)), old(file).voxels@),
        grid_fits(grid),
    ensures
        indexes(entries(*final(voxel_map)), final(file).voxels@),
        final(file).active_object_id == old(file).active_object_id,
        (final(file).voxels@, out@) == majority_pass(
            old(file).voxels@,
            first_occurrences(footprint@),
            grid,
            smooth_radius(neighbor_radius),
            aggressiveness,
            old(file).active_object_id,
        ),
{
    let r: i32 = if neighbor_radius < SMOOTH_NEIGHBOR_RADIUS_MAX {
        neighbor_radius as i32
    } else {
        6
    };
    let active_object_id: u32 = file.active_object_id;
    let unique = unique_cells(footprint);
    let mut out: Vec<VoxelEditDelta> = Vec::new();
    let mut i: usize = 0;
    let ghost start = file.voxels@;
    assert(unique@.take(0) =~= Seq::<VoxelCoord>::empty());
    while i < unique.len()
        invariant
            0 <= i <= unique@.len(),
            0 <= r <= 6,
            grid_fits(grid),
            indexes(entries(*voxel_map), file.voxels@),
            file.active_object_id == active_object_id,
            (file.voxels@, out@) == majority_pass(
                start,
                unique@.take(i as int),
                grid,
                r as int,
                aggressiveness,
                active_object_id,
            ),
        decreases unique@.len() - i,
    {
        let c: VoxelCoord = unique[i];
        proof {
            assert(unique@.take(i as int + 1).drop_last() =~= unique@.take(i as int));
            assert(unique@.take(i as int + 1).last() == c);
        }
        let delta = smooth_cell(
            &mut file.voxels,
            voxel_map,
            c,
            grid,
            r,
            aggressiveness,
            active_object_id,
        );
        if let Some(d) = delta {
            out.push(d);
        }
        i += 1;
    }
    assert(unique@.take(i as int) =~= unique@);
    out
}

/// The cell that a record is about.
pub open spec fn delta_cell(d: VoxelEditDelta) -> VoxelCoord {
    match d {
        VoxelEditDelta::Added(v) => coord_of(v),
        VoxelEditDelta::Removed { voxel } => coord_of(voxel),
        VoxelEditDelta::Painted { before, after } => coord_of(after),
    }
}

/// A step changes the model by what it records, at the cell that it visits.
pub(crate) proof fn lemma_step(
    voxels: Seq<Voxel>,
    c: VoxelCoord,
    grid: GridRange,
    r: int,
    aggressiveness: u32,
    active_object_id: u32,
)
    requires
        cells_distinct(voxels),
    ensures
        ({
            let (v, e) = majority_step(voxels, c, grid, r, aggressiveness, active_object_id);
            &&& cells_distinct(v)
            &&& e is None ==> v == voxels
            &&& e matches Some(d) ==> contents(v) == apply_delta(contents(voxels), d)
                && delta_cell(d) == c && in_grid(c, grid)
        }),
{
    let (v, e) = majority_step(voxels, c, grid, r, aggressiveness, active_object_id);
    match e {
        Some(VoxelEditDelta::Added(nv)) => {
            law_push_contents(voxels, nv);
        },
        Some(VoxelEditDelta::Removed { voxel }) => {
            let i = position_of(voxels, c);
            assert(coord_of(voxels[i]) == c);
            law_swap_removed_contents(voxels, i);
        },
        _ => {},
    }
}

/// Replaying the records of a pass on the old contents gives the new contents, and
/// still no two voxels share a cell.
pub proof fn law_majority_replay(
    voxels: Seq<Voxel>,
    cells: Seq<VoxelCoord>,
    grid: GridRange,
    r: int,
    aggressiveness: u32,
    active_object_id: u32,
)
    requires
        cells_distinct(voxels),
    ensures
        ({
            let (v, d) = majority_pass(voxels, cells, grid, r, aggressiveness, active_object_id);
            cells_distinct(v) && contents(v) == replay(contents(voxels), d)
        }),
    decreases cells.len(),
{
    if cells.len() > 0 {
        let head = cells.drop_last();
        law_majority_replay(voxels, head, grid, r, aggressiveness, active_object_id);
        let (v, d) = majority_pass(voxels, head, grid, r, aggressiveness, active_object_id);
        lemma_step(v, cells.last(), grid, r, aggressiveness, active_object_id);
        let (v2, e) = majority_step(v, cells.last(), grid, r, aggressiveness, active_object_id);
        if e is Some {
            assert(d.push(e->0).drop_last() =~= d);
        }
    }
}

/// A pass only touches cells of its footprint that lie in the grid, each at most
/// once: the records are about different cells of the list, and every other cell
/// keeps what it held.
pub proof fn law_majority_footprint(
    voxels: Seq<Voxel>,
    cells: Seq<VoxelCoord>,
    grid: GridRange,
    r: int,
    aggressiveness: u32,
    active_object_id: u32,
)
    requires
        cells_distinct(voxels),
        cells.no_duplicates(),
    ensures
        ({
            let (v, d) = majority_pass(voxels, cells, grid, r, aggressiveness, active_object_id);
            &&& forall|i: int|
                0 <= i < d.len() ==> cells.contains(delta_cell(#[trigger] d[i])) && in_grid(
                    delta_cell(d[i]),
                    grid,
                )
            &&& forall|i: int, j: int|
                0 <= i < j < d.len() ==> delta_cell(#[trigger] d[i]) != delta_cell(#[trigger] d[j])
            &&& forall|c: VoxelCoord|
                !cells.contains(c) ==> (#[trigger] contents(v).contains_key(c) == contents(
                    voxels,
                ).contains_key(c)) && (contents(v).contains_key(c) ==> contents(v)[c] == contents(
                    voxels,
                )[c])
        }),
    decreases cells.len(),
{
    if cells.len() > 0 {
        let head = cells.drop_last();
        let last = cells.last();
        law_majority_footprint(voxels, head, grid, r, aggressiveness, active_object_id);
        law_majority_replay(voxels, head, grid, r, aggressiveness, active_object_id);
        let (v, d) = majority_pass(voxels, head, grid, r, aggressiveness, active_object_id);
        let (v2, d2) = majority_pass(voxels, cells, grid, r, aggressiveness, active_object_id);
        lemma_step(v, last, grid, r, aggressiveness, active_object_id);
        assert(cells[cells.len() - 1] == last);
        assert forall|c: VoxelCoord| head.contains(c) implies cells.contains(c) && c != last by {
            let i = choose|i: int| 0 <= i < head.len() && head[i] == c;
            assert(cells[i] == c);
        }
        assert forall|i: int| 0 <= i < d2.len() implies cells.contains(
            delta_cell(#[trigger] d2[i]),
        ) && in_grid(delta_cell(d2[i]), grid) by {
            if i < d.len() {
                assert(d2[i] == d[i]);
                assert(head.contains(delta_cell(d[i])));
            }
        }
        assert forall|i: int, j: int| 0 <= i < j < d2.len() implies delta_cell(#[trigger] d2[i])
            != delta_cell(#[trigger] d2[j]) by {
            assert(d2[i] == d[i]);
            assert(head.contains(delta_cell(d[i])));
            if j < d.len() {
                assert(d2[j] == d[j]);
            }
        }
        assert forall|c: VoxelCoord| !cells.contains(c) implies (#[trigger] contents(
            v2,
        ).contains_key(c) == contents(voxels).contains_key(c)) && (contents(v2).contains_key(c)
            ==> contents(v2)[c] == contents(voxels)[c]) by {
            assert(!head.contains(c));
            assert(contents(v).contains_key(c) == contents(voxels).contains_key(c));
        }
    }
}

/// The neighbours among the first candidates are those candidates that are neighbours.
pub(crate) proof fn lemma_slots(c: VoxelCoord, r: int, grid: GridRange, n: nat)
    requires
        in_grid(c, grid),
        grid_fits(grid),
    ensures
        forall|d: VoxelCoord| #[trigger]
            slots(c, r, grid, n).contains(d) <==> exists|k: int|
                0 <= k < n && is_slot(c, #[trigger] candidate(c, r, k), grid) && candidate(c, r, k)
                    == (d.0 as int, d.1 as int, d.2 as int),
    decreases n,
{
    if n > 0 {
        let m = (n - 1) as nat;
        lemma_slots(c, r, grid, m);
        let head = slots(c, r, grid, m);
        let all = slots(c, r, grid, n);
        let w = candidate(c, r, n - 1);
        assert forall|d: VoxelCoord| #[trigger] all.contains(d) <==> exists|k: int|
            0 <= k < n && is_slot(c, #[trigger] candidate(c, r, k), grid) && candidate(c, r, k) == (
                d.0 as int,
                d.1 as int,
                d.2 as int,
            ) by {
            if all.contains(d) {
                let i = choose|i: int| 0 <= i < all.len() && all[i] == d;
                if i < head.len() {
                    assert(head[i] == d);
                    assert(head.contains(d));
                } else {
                    assert(is_slot(c, candidate(c, r, n - 1), grid));
                }
            }
            if exists|k: int|
                0 <= k < n && is_slot(c, #[trigger] candidate(c, r, k), grid) && candidate(c, r, k)
                    == (d.0 as int, d.1 as int, d.2 as int) {
                let k = choose|k: int|
                    0 <= k < n && is_slot(c, #[trigger] candidate(c, r, k), grid) && candidate(
                        c,
                        r,
                        k,
                    ) == (d.0 as int, d.1 as int, d.2 as int);
                if k < m {
                    assert(head.contains(d));
                    let i = choose|i: int| 0 <= i < head.len() && head[i] == d;
                    assert(all[i] == d);
                } else {
                    assert(all[head.len() as int] == d);
                }
            }
        }
    }
}

/// With a radius of one or more the neighbours of a cell are the cells of the grid
/// that differ from it by at most the radius on every axis, itself left out.
pub proof fn law_neighbors_are_the_cube(c: VoxelCoord, r: int, grid: GridRange, d: VoxelCoord)
    requires
        1 <= r <= 6,
        in_grid(c, grid),
        grid_fits(grid),
    ensures
        neighbor_slots(c, r, grid).contains(d) <==> {
            &&& d != c
            &&& in_grid(d, grid)
            &&& -r <= d.0 - c.0 <= r
            &&& -r <= d.1 - c.1 <= r
            &&& -r <= d.2 - c.2 <= r
        },
{
    let side = 2 * r + 1;
    lemma_candidate_count(r);
    lemma_slots(c, r, grid, candidate_count(r) as nat);
    if neighbor_slots(c, r, grid).contains(d) {
        let k = choose|k: int|
            0 <= k < candidate_count(r) && is_slot(c, #[trigger] candidate(c, r, k), grid)
                && candidate(c, r, k) == (d.0 as int, d.1 as int, d.2 as int);
        lemma_cube_offset_range(k, r);
    }
    if d != c && in_grid(d, grid) && -r <= d.0 - c.0 <= r && -r <= d.1 - c.1 <= r && -r <= d.2 - c.2
        <= r {
        let (x, y, z) = (d.0 - c.0 + r, d.1 - c.1 + r, d.2 - c.2 + r);
        law_node_index(x, y, z, side, side, side);
        let k = node_index(x, y, z, side, side);
        assert(candidate(c, r, k) == (d.0 as int, d.1 as int, d.2 as int));
        assert(is_slot(c, candidate(c, r, k), grid));
    }
}

} // verus!
