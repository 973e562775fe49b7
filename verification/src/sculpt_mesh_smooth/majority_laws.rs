//! What a majority pass does to a cell, said by the cells round it.

use vstd::prelude::*;

use crate::sculpt_mesh_smooth::majority::{
    candidate, candidate_count, grid_fits, is_slot, law_majority_footprint,
    law_majority_replay, law_neighbors_are_the_cube, lemma_slots, lemma_step, majority_pass,
    majority_step, neighbor_slots, slots, smooth_radius, voxels_in, SMOOTH_NEIGHBOR_RADIUS_MAX,
};
use crate::sculpt_mesh_smooth::threshold_laws::{
    hundredths, law_fill_threshold_is_a_ratio, law_removal_threshold_is_a_ratio,
};
use crate::sculpt_mesh_smooth::thresholds::{max_filled, min_filled};
use crate::voxel_index::{cells_distinct, contents, occupied, voxel_at};
use crate::voxelle::{coord_of, in_grid, GridRange, Voxel, VoxelCoord};

verus! {

/// Distance of two whole numbers.
pub open spec fn gap(a: int, b: int) -> int {
    if a < b {
        b - a
    } else {
        a - b
    }
}

/// Two cells are neighbours: with radius zero they share a face, else they differ,
/// by no more than the radius on any axis.
pub open spec fn neighbors(c: VoxelCoord, d: VoxelCoord, r: int) -> bool {
    if r == 0 {
        gap(c.0 as int, d.0 as int) + gap(c.1 as int, d.1 as int) + gap(c.2 as int, d.2 as int) == 1
    } else {
        c != d && gap(c.0 as int, d.0 as int) <= r && gap(c.1 as int, d.1 as int) <= r && gap(
            c.2 as int,
            d.2 as int,
        ) <= r
    }
}

/// The cells of the grid round a cell.
pub open spec fn neighborhood(c: VoxelCoord, r: int, grid: GridRange) -> Set<VoxelCoord> {
    Set::new(|d: VoxelCoord| neighbors(c, d, r) && in_grid(d, grid))
}

/// The filled ones among the cells of the grid round a cell.
pub open spec fn filled_neighborhood(
    voxels: Seq<Voxel>,
    c: VoxelCoord,
    r: int,
    grid: GridRange,
) -> Set<VoxelCoord> {
    Set::new(
        |d: VoxelCoord|
            neighbors(c, d, r) && in_grid(d, grid) && contents(voxels).contains_key(d),
    )
}

/// Different candidates are different cells.
proof fn lemma_candidates_differ(c: VoxelCoord, r: int, j: int, k: int)
    requires
        0 <= r <= 6,
        0 <= j < candidate_count(r),
        0 <= k < candidate_count(r),
        candidate(c, r, j) == candidate(c, r, k),
    ensures
        j == k,
{
    if r > 0 {
        let side = 2 * r + 1;
        assert(j % side == k % side);
        assert(j / side % side == k / side % side);
        assert(j / side / side == k / side / side);
        vstd::arithmetic::div_mod::lemma_fundamental_div_mod(j / side, side);
        vstd::arithmetic::div_mod::lemma_fundamental_div_mod(k / side, side);
        vstd::arithmetic::div_mod::lemma_fundamental_div_mod(j, side);
        vstd::arithmetic::div_mod::lemma_fundamental_div_mod(k, side);
    }
}

proof fn lemma_slots_distinct(c: VoxelCoord, r: int, grid: GridRange, n: nat)
    requires
        0 <= r <= 6,
        in_grid(c, grid),
        grid_fits(grid),
        n <= candidate_count(r),
    ensures
        slots(c, r, grid, n).no_duplicates(),
        slots(c, r, grid, n).len() <= n,
    decreases n,
{
    if n > 0 {
        let m = (n - 1) as nat;
        lemma_slots_distinct(c, r, grid, m);
        lemma_slots(c, r, grid, m);
        let head = slots(c, r, grid, m);
        let d = candidate(c, r, n - 1);
        if is_slot(c, d, grid) {
            let w: VoxelCoord = (d.0 as i32, d.1 as i32, d.2 as i32);
            if head.contains(w) {
                let k = choose|k: int|
                    0 <= k < m && is_slot(c, #[trigger] candidate(c, r, k), grid) && candidate(
                        c,
                        r,
                        k,
                    ) == (w.0 as int, w.1 as int, w.2 as int);
                lemma_candidates_differ(c, r, k, n - 1);
            }
        }
    }
}

/// The neighbours that are visited are the cells of the grid round the cell, each once.
pub proof fn law_neighbors_are_visited_once(c: VoxelCoord, r: int, grid: GridRange)
    requires
        0 <= r <= 6,
        in_grid(c, grid),
        grid_fits(grid),
    ensures
        neighbor_slots(c, r, grid).no_duplicates(),
        neighbor_slots(c, r, grid).to_set() == neighborhood(c, r, grid),
        neighbor_slots(c, r, grid).len() <= 2197,
{
    lemma_count(r);
    lemma_slots_distinct(c, r, grid, candidate_count(r) as nat);
    let list = neighbor_slots(c, r, grid);
    assert forall|d: VoxelCoord| list.contains(d) <==> neighborhood(c, r, grid).contains(d) by {
        if r > 0 {
            law_neighbors_are_the_cube(c, r, grid, d);
        } else {
            lemma_slots(c, r, grid, candidate_count(r) as nat);
            if list.contains(d) {
                let k = choose|k: int|
                    0 <= k < candidate_count(r) && is_slot(c, #[trigger] candidate(c, r, k), grid)
                        && candidate(c, r, k) == (d.0 as int, d.1 as int, d.2 as int);
                assert(neighbors(c, d, r));
            }
            if neighborhood(c, r, grid).contains(d) {
                let k: int = if d.0 == c.0 + 1 {
                    0
                } else if d.0 == c.0 - 1 {
                    1
                } else if d.1 == c.1 + 1 {
                    2
                } else if d.1 == c.1 - 1 {
                    3
                } else if d.2 == c.2 + 1 {
                    4
                } else {
                    5
                };
                assert(candidate(c, r, k) == (d.0 as int, d.1 as int, d.2 as int));
                assert(is_slot(c, candidate(c, r, k), grid));
            }
        }
    }
    assert(list.to_set() =~= neighborhood(c, r, grid));
}

proof fn lemma_count(r: int)
    requires
        0 <= r <= 6,
    ensures
        0 < candidate_count(r) <= 2197,
{
    if r > 0 {
        let s = 2 * r + 1;
        assert(0 < s * s <= 169) by (nonlinear_arith)
            requires
                3 <= s <= 13,
        ;
        assert(0 < s * s * s <= 2197) by (nonlinear_arith)
            requires
                3 <= s <= 13,
                0 < s * s <= 169,
        ;
    }
}

/// As many voxels are found in a list of different cells as cells of it are filled.
proof fn lemma_voxels_in_count(voxels: Seq<Voxel>, cells: Seq<VoxelCoord>)
    requires
        cells.no_duplicates(),
    ensures
        ({
            let found = Set::new(|d: VoxelCoord| cells.contains(d) && occupied(voxels, d));
            found.finite() && voxels_in(voxels, cells).len() == found.len()
        }),
    decreases cells.len(),
{
    let found = Set::new(|d: VoxelCoord| cells.contains(d) && occupied(voxels, d));
    if cells.len() == 0 {
        assert(found =~= Set::<VoxelCoord>::empty());
    } else {
        let head = cells.drop_last();
        let last = cells.last();
        lemma_voxels_in_count(voxels, head);
        let before = Set::new(|d: VoxelCoord| head.contains(d) && occupied(voxels, d));
        assert(!head.contains(last)) by {
            if head.contains(last) {
                let i = choose|i: int| 0 <= i < head.len() && head[i] == last;
                assert(cells[i] == cells[cells.len() - 1]);
            }
        }
        assert forall|d: VoxelCoord| cells.contains(d) <==> head.contains(d) || d == last by {
            if cells.contains(d) {
                let i = choose|i: int| 0 <= i < cells.len() && cells[i] == d;
                if i < head.len() {
                    assert(head[i] == d);
                }
            }
            if head.contains(d) {
                let i = choose|i: int| 0 <= i < head.len() && head[i] == d;
                assert(cells[i] == d);
            }
            assert(cells[cells.len() - 1] == last);
        }
        if occupied(voxels, last) {
            assert(found =~= before.insert(last));
        } else {
            assert(found =~= before);
        }
    }
}

/// The counts that a visit goes by are those of the cells round the cell.
proof fn lemma_counts(voxels: Seq<Voxel>, c: VoxelCoord, r: int, grid: GridRange)
    requires
        0 <= r <= 6,
        in_grid(c, grid),
        grid_fits(grid),
    ensures
        neighborhood(c, r, grid).finite(),
        filled_neighborhood(voxels, c, r, grid).finite(),
        neighbor_slots(c, r, grid).len() == neighborhood(c, r, grid).len() <= 2197,
        voxels_in(voxels, neighbor_slots(c, r, grid)).len() == filled_neighborhood(
            voxels,
            c,
            r,
            grid,
        ).len(),
{
    let list = neighbor_slots(c, r, grid);
    law_neighbors_are_visited_once(c, r, grid);
    list.unique_seq_to_set();
    lemma_voxels_in_count(voxels, list);
    let found = Set::new(|d: VoxelCoord| list.contains(d) && occupied(voxels, d));
    assert forall|d: VoxelCoord| found.contains(d) == filled_neighborhood(
        voxels,
        c,
        r,
        grid,
    ).contains(d) by {
        assert(list.to_set().contains(d) == neighborhood(c, r, grid).contains(d));
    }
    assert(found =~= filled_neighborhood(voxels, c, r, grid));
}

/// A cell visited while it is empty is filled exactly where as many cells round it
/// are filled as the fill threshold says; one visited while it is filled is emptied
/// exactly where no more are than the removal threshold says. A cell outside the
/// grid, or with no cell of the grid round it, keeps what it held, and so does
/// every other cell.
pub proof fn law_visit_goes_by_the_thresholds(
    voxels: Seq<Voxel>,
    c: VoxelCoord,
    grid: GridRange,
    r: int,
    aggressiveness: u32,
    active_object_id: u32,
    other: VoxelCoord,
)
    requires
        0 <= r <= 6,
        grid_fits(grid),
        cells_distinct(voxels),
    ensures
        ({
            let before = contents(voxels);
            let after = contents(
                majority_step(voxels, c, grid, r, aggressiveness, active_object_id).0,
            );
            let all = neighborhood(c, r, grid).len() as int;
            let full = filled_neighborhood(voxels, c, r, grid).len() as int;
            &&& !in_grid(c, grid) || all == 0 ==> after == before
            &&& in_grid(c, grid) && all > 0 && !before.contains_key(c) ==> (after.contains_key(c)
                <==> full >= min_filled(all, aggressiveness))
            &&& in_grid(c, grid) && all > 0 && before.contains_key(c) ==> (!after.contains_key(c)
                <==> full <= max_filled(all, aggressiveness))
            &&& before.contains_key(c) && after.contains_key(c) ==> after[c] == before[c]
            &&& !before.contains_key(c) && after.contains_key(c) ==> after[c].object_id
                == active_object_id && coord_of(after[c]) == c
            &&& other != c ==> after.contains_key(other) == before.contains_key(other) && (
            before.contains_key(other) ==> after[other] == before[other])
        }),
{
    lemma_step(voxels, c, grid, r, aggressiveness, active_object_id);
    if in_grid(c, grid) {
        lemma_counts(voxels, c, r, grid);
    }
    if occupied(voxels, c) {
        assert(coord_of(voxel_at(voxels, c)) == c);
    }
}

/// How full the cells round a cell have to be: with `a` per cent of aggressiveness
/// an empty cell is filled where more than `(500 - a) / 600` of them are filled,
/// and not where fewer are; a filled one is emptied where fewer than
/// `(100 + a) / 600` of them are filled, and not where more are.
pub proof fn law_visit_goes_by_the_share_of_filled_cells(
    voxels: Seq<Voxel>,
    c: VoxelCoord,
    grid: GridRange,
    r: int,
    aggressiveness: u32,
    active_object_id: u32,
)
    requires
        0 <= r <= 6,
        grid_fits(grid),
        cells_distinct(voxels),
        in_grid(c, grid),
        neighborhood(c, r, grid).len() > 0,
    ensures
        ({
            let before = contents(voxels);
            let after = contents(
                majority_step(voxels, c, grid, r, aggressiveness, active_object_id).0,
            );
            let a = hundredths(aggressiveness);
            let all = neighborhood(c, r, grid).len() as int;
            let full = filled_neighborhood(voxels, c, r, grid).len() as int;
            if !before.contains_key(c) {
                &&& 600 * full > (500 - a) * all ==> after.contains_key(c)
                &&& 600 * full < (500 - a) * all ==> !after.contains_key(c)
            } else {
                &&& 600 * full < (100 + a) * all ==> !after.contains_key(c)
                &&& 600 * full > (100 + a) * all ==> after.contains_key(c)
            }
        }),
{
    let all = neighborhood(c, r, grid).len() as int;
    let full = filled_neighborhood(voxels, c, r, grid).len() as int;
    lemma_counts(voxels, c, r, grid);
    law_visit_goes_by_the_thresholds(voxels, c, grid, r, aggressiveness, active_object_id, c);
    law_fill_threshold_is_a_ratio(all, aggressiveness, full);
    law_removal_threshold_is_a_ratio(all, aggressiveness, full);
}

/// A pass over two lists of cells is a pass over the first and one over the second.
proof fn lemma_pass_concat(
    voxels: Seq<Voxel>,
    a: Seq<VoxelCoord>,
    b: Seq<VoxelCoord>,
    grid: GridRange,
    r: int,
    aggressiveness: u32,
    active_object_id: u32,
)
    ensures
        majority_pass(voxels, a + b, grid, r, aggressiveness, active_object_id).0 == majority_pass(
            majority_pass(voxels, a, grid, r, aggressiveness, active_object_id).0,
            b,
            grid,
            r,
            aggressiveness,
            active_object_id,
        ).0,
    decreases b.len(),
{
    if b.len() == 0 {
        assert(a + b =~= a);
    } else {
        lemma_pass_concat(voxels, a, b.drop_last(), grid, r, aggressiveness, active_object_id);
        assert((a + b).drop_last() =~= a + b.drop_last());
        assert((a + b).last() == b.last());
    }
}

/// After a pass each cell of its list is as its visit left it, and the visit saw
/// the model as the cells before it in the list had left it.
pub proof fn law_pass_decides_each_cell_once(
    voxels: Seq<Voxel>,
    cells: Seq<VoxelCoord>,
    grid: GridRange,
    r: int,
    aggressiveness: u32,
    active_object_id: u32,
    i: int,
)
    requires
        0 <= r <= 6,
        grid_fits(grid),
        cells_distinct(voxels),
        cells.no_duplicates(),
        0 <= i < cells.len(),
    ensures
        ({
            let c = cells[i];
            let seen = majority_pass(
                voxels,
                cells.take(i),
                grid,
                r,
                aggressiveness,
                active_object_id,
            ).0;
            let after = contents(
                majority_pass(voxels, cells, grid, r, aggressiveness, active_object_id).0,
            );
            let all = neighborhood(c, r, grid).len() as int;
            let full = filled_neighborhood(seen, c, r, grid).len() as int;
            &&& contents(seen).contains_key(c) == contents(voxels).contains_key(c)
            &&& in_grid(c, grid) && all > 0 && !contents(voxels).contains_key(c) ==> (
            after.contains_key(c) <==> full >= min_filled(all, aggressiveness))
            &&& in_grid(c, grid) && all > 0 && contents(voxels).contains_key(c) ==> (
            !after.contains_key(c) <==> full <= max_filled(all, aggressiveness))
            &&& !in_grid(c, grid) || all == 0 ==> after.contains_key(c) == contents(
                voxels,
            ).contains_key(c)
        }),
{
    let c = cells[i];
    let (head, tail) = (cells.take(i), cells.skip(i + 1));
    let seen = majority_pass(voxels, head, grid, r, aggressiveness, active_object_id).0;
    let next = majority_pass(
        voxels,
        cells.take(i + 1),
        grid,
        r,
        aggressiveness,
        active_object_id,
    ).0;
    assert(cells.take(i + 1).drop_last() =~= head);
    assert(cells.take(i + 1).last() == c);
    assert(cells.take(i + 1) + tail =~= cells);
    lemma_pass_concat(
        voxels,
        cells.take(i + 1),
        tail,
        grid,
        r,
        aggressiveness,
        active_object_id,
    );
    law_majority_replay(voxels, head, grid, r, aggressiveness, active_object_id);
    law_majority_replay(voxels, cells.take(i + 1), grid, r, aggressiveness, active_object_id);
    law_majority_footprint(voxels, head, grid, r, aggressiveness, active_object_id);
    law_majority_footprint(next, tail, grid, r, aggressiveness, active_object_id);
    assert(!head.contains(c));
    assert(!tail.contains(c));
    assert(contents(seen).contains_key(c) == contents(voxels).contains_key(c));
    law_visit_goes_by_the_thresholds(seen, c, grid, r, aggressiveness, active_object_id, c);
    assert(next == majority_step(seen, c, grid, r, aggressiveness, active_object_id).0);
    let done = majority_pass(next, tail, grid, r, aggressiveness, active_object_id).0;
    assert(contents(done).contains_key(c) == contents(next).contains_key(c));
}

/// The radius is the one that was asked for, up to the greatest, and no larger one
/// reaches further than that.
pub proof fn law_radius_is_capped(a: u32, b: u32)
    ensures
        a <= SMOOTH_NEIGHBOR_RADIUS_MAX ==> smooth_radius(a) == a,
        a >= SMOOTH_NEIGHBOR_RADIUS_MAX ==> smooth_radius(a) == SMOOTH_NEIGHBOR_RADIUS_MAX,
        a <= b ==> smooth_radius(a) <= smooth_radius(b),
        0 <= smooth_radius(a) <= 6,
{
}

} // verus!
