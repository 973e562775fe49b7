//! Smoothing a region by its surface: the filled cells of the region are meshed,
//! the mesh is relaxed, and the region is filled again where the relaxed mesh
//! encloses a cell. Meshing and relaxing happen outside; what is decided before
//! and after them is decided here.

use vstd::prelude::*;

use crate::collections::{coord_map_get, entries, CoordMap};
use crate::distinct::first_occurrences;
use crate::sculpt_mesh_smooth::blend::PROXY_COLOR;
use crate::sculpt_mesh_smooth::majority::{
    apply_sculpt_smooth_majority_pass, collect_voxels, grid_fits, majority_pass, smooth_radius,
    voxels_in,
};
use crate::sculpt_mesh_smooth::region::{
    in_region, law_region_cells, lemma_corner_margins, list_region, margin_fits, region,
    region_cells, region_size, roi_cell_count, roi_from_footprint_margin, Roi,
};
use crate::smooth_mesh::lattice::{bounds, high_corner, low_corner};
use crate::voxel_index::{
    append_voxel, cells_distinct, contents, indexes, law_push_contents,
    law_swap_removed_contents, lemma_lookup, occupied, position_of, remove_voxel_at, replay,
    swap_removed, voxel_at,
};
use crate::voxelle::{
    coord_of, GridRange, MaterialId, Voxel, VoxelCoord, VoxelEditDelta, VoxelleFile,
};

verus! {

/// Cells of a region above which the majority pass takes its place.
pub const MAX_LAPLACIAN_ROI_CELLS: i64 = 70_000;

/// Which smoothing a stroke asks for.
#[derive(Clone, Copy, Debug, PartialEq, Eq, Structural)]
pub enum SculptSmoothVariant {
    Majority,
    MeshLaplacian,
}

impl Default for SculptSmoothVariant {
    fn default() -> (r: SculptSmoothVariant)
        ensures
            r == SculptSmoothVariant::Majority,
    {
        SculptSmoothVariant::Majority
    }
}

/// What is to be done for a footprint.
#[derive(Debug)]
pub enum LaplacianPlan {
    /// No footprint.
    Nothing,
    /// The region is too large, or there is nothing in it to mesh: the majority
    /// pass takes its place.
    Majority,
    /// The cells to mesh, and the region they lie in.
    Mesh { emit: Vec<Voxel>, roi: Roi },
}

/// The voxels that stand for the filled cells of a list while they are meshed:
/// grey plastic of the active object.
pub open spec fn proxies(
    voxels: Seq<Voxel>,
    cells: Seq<VoxelCoord>,
    active_object_id: u32,
) -> Seq<Voxel>
    decreases cells.len(),
{
    if cells.len() == 0 {
        seq![]
    } else {
        let head = proxies(voxels, cells.drop_last(), active_object_id);
        let c = cells.last();
        if occupied(voxels, c) {
            head.push(
                Voxel {
                    x: c.0,
                    y: c.1,
                    z: c.2,
                    color: 0x888888,
                    material: MaterialId::Plastic,
                    object_id: active_object_id,
                },
            )
        } else {
            head
        }
    }
}

/// What is to be done for a footprint, by the region round it.
pub fn plan_mesh_laplacian(
    file: &VoxelleFile,
    voxel_map: &CoordMap,
    footprint: &[VoxelCoord],
    grid: GridRange,
    neighbor_margin: i32,
) -> (plan: LaplacianPlan)
    requires
        indexes(entries(*voxel_map), file.voxels@),
        margin_fits(footprint@, neighbor_margin as int),
        grid_fits(grid),
    ensures
        ({
            let roi = region(footprint@, neighbor_margin as int, grid);
            let found = proxies(file.voxels@, region_cells(roi), file.active_object_id);
            &&& plan is Nothing <==> footprint@.len() == 0
            &&& plan is Majority <==> footprint@.len() > 0 && (region_size(roi) > 70_000
                || found.len() == 0)
            &&& plan matches LaplacianPlan::Mesh { emit, roi: r } ==> r == roi && emit@ == found
                && bounds(
                footprint@.to_set(),
                low_corner(footprint@.to_set()),
                high_corner(footprint@.to_set()),
            )
        }),
{
    let roi = match roi_from_footprint_margin(footprint, neighbor_margin, grid) {
        Some(roi) => roi,
        None => {
            return LaplacianPlan::Nothing;
        },
    };
    proof {
        lemma_corner_margins(footprint@, neighbor_margin as int);
    }
    let cells: i64 = roi_cell_count(roi.0, roi.1, roi.2, roi.3, roi.4, roi.5);
    if cells > MAX_LAPLACIAN_ROI_CELLS {
        return LaplacianPlan::Majority;
    }
    let list = list_region(roi);
    let mut emit: Vec<Voxel> = Vec::new();
    let mut i: usize = 0;
    assert(list@.take(0) =~= Seq::<VoxelCoord>::empty());
    while i < list.len()
        invariant
            0 <= i <= list@.len(),
            indexes(entries(*voxel_map), file.voxels@),
            emit@ == proxies(file.voxels@, list@.take(i as int), file.active_object_id),
        decreases list@.len() - i,
    {
        let c: VoxelCoord = list[i];
        proof {
            assert(list@.take(i as int + 1).drop_last() =~= list@.take(i as int));
            lemma_lookup(entries(*voxel_map), file.voxels@, c);
        }
        if coord_map_get(voxel_map, &c).is_some() {
            emit.push(
                Voxel {
                    x: c.0,
                    y: c.1,
                    z: c.2,
                    color: PROXY_COLOR,
                    material: MaterialId::Plastic,
                    object_id: file.active_object_id,
                },
            );
        }
        i += 1;
    }
    assert(list@.take(i as int) =~= list@);
    if emit.len() == 0 {
        return LaplacianPlan::Majority;
    }
    LaplacianPlan::Mesh { emit, roi }
}

/// Whether a mesh of so many indices has a triangle to relax.
pub fn has_triangle(indices: usize) -> (r: bool)
    ensures
        r == (indices >= 3),
{
    indices >= 3
}

/// Square of the distance between two cells.
pub open spec fn distance_squared(v: Voxel, c: VoxelCoord) -> int {
    (v.x - c.0) * (v.x - c.0) + (v.y - c.1) * (v.y - c.1) + (v.z - c.2) * (v.z - c.2)
}

/// Position of the voxel nearest to a cell among the first `n`, the first of those as near.
pub open spec fn nearest_position(voxels: Seq<Voxel>, c: VoxelCoord, n: nat) -> int
    decreases n,
{
    if n <= 1 {
        0
    } else {
        let best = nearest_position(voxels, c, (n - 1) as nat);
        if distance_squared(voxels[n - 1], c) < distance_squared(voxels[best], c) {
            n - 1
        } else {
            best
        }
    }
}

/// No voxel is nearer than the nearest, and none before it is as near.
pub proof fn law_nearest(voxels: Seq<Voxel>, c: VoxelCoord, n: nat)
    requires
        0 < n <= voxels.len(),
    ensures
        0 <= nearest_position(voxels, c, n) < n,
        forall|i: int|
            0 <= i < n ==> distance_squared(
                voxels[nearest_position(voxels, c, n)],
                c,
            ) <= distance_squared(#[trigger] voxels[i], c),
        forall|i: int|
            0 <= i < nearest_position(voxels, c, n) ==> distance_squared(
                voxels[nearest_position(voxels, c, n)],
                c,
            ) < distance_squared(#[trigger] voxels[i], c),
    decreases n,
{
    if n > 1 {
        law_nearest(voxels, c, (n - 1) as nat);
    }
}

/// Square of the distance between two cells.
fn distance(v: &Voxel, c: VoxelCoord) -> (r: i128)
    ensures
        r == distance_squared(*v, c),
{
    let dx: i128 = v.x as i128 - c.0 as i128;
    let dy: i128 = v.y as i128 - c.1 as i128;
    let dz: i128 = v.z as i128 - c.2 as i128;
    proof {
        lemma_square(dx as int);
        lemma_square(dy as int);
        lemma_square(dz as int);
    }
    dx * dx + dy * dy + dz * dz
}

proof fn lemma_square(d: int)
    requires
        -0x1_0000_0000 <= d <= 0x1_0000_0000,
    ensures
        0 <= d * d <= 0x1_0000_0000_0000_0000,
{
    assert(0 <= d * d <= 0x1_0000_0000_0000_0000) by (nonlinear_arith)
        requires
            -0x1_0000_0000 <= d <= 0x1_0000_0000,
    ;
}

/// The voxel nearest to a cell, the first of those as near; `None` of none.
pub fn nearest_original_voxel(c: VoxelCoord, originals: &Vec<Voxel>) -> (r: Option<Voxel>)
    ensures
        originals@.len() == 0 ==> r is None,
        originals@.len() > 0 ==> r == Some(
            originals@[nearest_position(originals@, c, originals@.len())],
        ),
{
    if originals.len() == 0 {
        return None;
    }
    let mut best: usize = 0;
    let mut best_d: i128 = distance(&originals[0], c);
    let mut i: usize = 1;
    while i < originals.len()
        invariant
            1 <= i <= originals@.len(),
            best == nearest_position(originals@, c, i as nat),
            best < i,
            best_d == distance_squared(originals@[best as int], c),
        decreases originals@.len() - i,
    {
        let d: i128 = distance(&originals[i], c);
        if d < best_d {
            best_d = d;
            best = i;
        }
        i += 1;
    }
    Some(originals[best])
}

/// The model with the voxels of the listed cells taken out, one after the other,
/// and the records of it.
pub open spec fn cleared(
    voxels: Seq<Voxel>,
    cells: Seq<VoxelCoord>,
) -> (Seq<Voxel>, Seq<VoxelEditDelta>)
    decreases cells.len(),
{
    if cells.len() == 0 {
        (voxels, seq![])
    } else {
        let (v, d) = cleared(voxels, cells.drop_last());
        let c = cells.last();
        if occupied(v, c) {
            (
                swap_removed(v, position_of(v, c)),
                d.push(VoxelEditDelta::Removed { voxel: voxel_at(v, c) }),
            )
        } else {
            (v, d)
        }
    }
}

/// The voxel that fills a cell again: like the nearest of the old ones, or of the
/// stroke where there was none.
pub open spec fn refill(
    c: VoxelCoord,
    originals: Seq<Voxel>,
    stroke_color: u32,
    stroke_material: MaterialId,
    active_object_id: u32,
) -> Voxel {
    let near = originals[nearest_position(originals, c, originals.len())];
    Voxel {
        x: c.0,
        y: c.1,
        z: c.2,
        color: if originals.len() == 0 {
            stroke_color
        } else {
            near.color
        },
        material: if originals.len() == 0 {
            stroke_material
        } else {
            near.material
        },
        object_id: active_object_id,
    }
}

/// The model with those of the first `n` listed cells filled that are inside the
/// surface, and the records of it.
pub open spec fn refilled(
    voxels: Seq<Voxel>,
    cells: Seq<VoxelCoord>,
    inside: Seq<bool>,
    originals: Seq<Voxel>,
    stroke_color: u32,
    stroke_material: MaterialId,
    active_object_id: u32,
    n: nat,
) -> (Seq<Voxel>, Seq<VoxelEditDelta>)
    decreases n,
{
    if n == 0 {
        (voxels, seq![])
    } else {
        let (v, d) = refilled(
            voxels,
            cells,
            inside,
            originals,
            stroke_color,
            stroke_material,
            active_object_id,
            (n - 1) as nat,
        );
        if inside[n - 1] {
            let nv = refill(
                cells[n - 1],
                originals,
                stroke_color,
                stroke_material,
                active_object_id,
            );
            (v.push(nv), d.push(VoxelEditDelta::Added(nv)))
        } else {
            (v, d)
        }
    }
}

/// The model with the listed cells emptied, and filled again where they are inside
/// the surface, and the records of it.
pub open spec fn rebuilt(
    voxels: Seq<Voxel>,
    cells: Seq<VoxelCoord>,
    inside: Seq<bool>,
    stroke_color: u32,
    stroke_material: MaterialId,
    active_object_id: u32,
) -> (Seq<Voxel>, Seq<VoxelEditDelta>) {
    let (v, d) = cleared(voxels, cells);
    let (v2, d2) = refilled(
        v,
        cells,
        inside,
        voxels_in(voxels, cells),
        stroke_color,
        stroke_material,
        active_object_id,
        cells.len(),
    );
    (v2, d + d2)
}

/// What holds while the listed cells are emptied: the records replay the change,
/// the cells are empty, and every other cell keeps what it held.
pub(crate) proof fn lemma_cleared(voxels: Seq<Voxel>, cells: Seq<VoxelCoord>)
    requires
        cells_distinct(voxels),
    ensures
        ({
            let (v, d) = cleared(voxels, cells);
            &&& cells_distinct(v)
            &&& contents(v) == replay(contents(voxels), d)
            &&& contents(v) == contents(voxels).remove_keys(cells.to_set())
        }),
    decreases cells.len(),
{
    if cells.len() == 0 {
        assert(contents(voxels).remove_keys(cells.to_set()) =~= contents(voxels));
    } else {
        let head = cells.drop_last();
        let c = cells.last();
        lemma_cleared(voxels, head);
        let (v, d) = cleared(voxels, head);
        let (v2, d2) = cleared(voxels, cells);
        assert(cells.to_set() =~= head.to_set().insert(c)) by {
            assert(cells =~= head.push(c));
            assert forall|x: VoxelCoord| cells.to_set().contains(x) <==> head.to_set().insert(
                c,
            ).contains(x) by {
                if cells.contains(x) {
                    let i = choose|i: int| 0 <= i < cells.len() && cells[i] == x;
                    if i < head.len() {
                        assert(head[i] == x);
                    }
                }
                if head.contains(x) {
                    let i = choose|i: int| 0 <= i < head.len() && head[i] == x;
                    assert(cells[i] == x);
                }
                assert(cells[cells.len() - 1] == c);
            }
        }
        if occupied(v, c) {
            let i = position_of(v, c);
            assert(coord_of(v[i]) == c);
            law_swap_removed_contents(v, i);
            assert(d2.drop_last() =~= d);
        } else {
            assert(!contents(v).contains_key(c));
        }
        assert(contents(v2) =~= contents(voxels).remove_keys(cells.to_set()));
    }
}

/// Replaying two lists of records is replaying one after the other.
proof fn lemma_replay_concat(
    cells: Map<VoxelCoord, Voxel>,
    a: Seq<VoxelEditDelta>,
    b: Seq<VoxelEditDelta>,
)
    ensures
        replay(cells, a + b) == replay(replay(cells, a), b),
    decreases b.len(),
{
    if b.len() == 0 {
        assert(a + b =~= a);
    } else {
        lemma_replay_concat(cells, a, b.drop_last());
        assert((a + b).drop_last() =~= a + b.drop_last());
    }
}

/// What holds while the listed cells are filled again: the records replay the
/// change, the cells still to come are empty, a cell of the list is filled exactly
/// where it is inside, and every other cell keeps what it held.
pub(crate) proof fn lemma_refilled(
    voxels: Seq<Voxel>,
    cells: Seq<VoxelCoord>,
    inside: Seq<bool>,
    originals: Seq<Voxel>,
    stroke_color: u32,
    stroke_material: MaterialId,
    active_object_id: u32,
    n: nat,
)
    requires
        cells_distinct(voxels),
        cells.no_duplicates(),
        inside.len() == cells.len(),
        n <= cells.len(),
        forall|i: int| 0 <= i < cells.len() ==> !occupied(voxels, #[trigger] cells[i]),
    ensures
        ({
            let (v, d) = refilled(
                voxels,
                cells,
                inside,
                originals,
                stroke_color,
                stroke_material,
                active_object_id,
                n,
            );
            &&& cells_distinct(v)
            &&& contents(v) == replay(contents(voxels), d)
            &&& forall|i: int| n <= i < cells.len() ==> !occupied(v, #[trigger] cells[i])
            &&& forall|i: int| 0 <= i < n ==> occupied(v, #[trigger] cells[i]) == inside[i]
            &&& forall|c: VoxelCoord|
                !cells.contains(c) ==> (#[trigger] contents(v).contains_key(c) == contents(
                    voxels,
                ).contains_key(c)) && (contents(v).contains_key(c) ==> contents(v)[c] == contents(
                    voxels,
                )[c])
        }),
    decreases n,
{
    if n > 0 {
        let m = (n - 1) as nat;
        lemma_refilled(
            voxels,
            cells,
            inside,
            originals,
            stroke_color,
            stroke_material,
            active_object_id,
            m,
        );
        let (v, d) = refilled(
            voxels,
            cells,
            inside,
            originals,
            stroke_color,
            stroke_material,
            active_object_id,
            m,
        );
        let (v2, d2) = refilled(
            voxels,
            cells,
            inside,
            originals,
            stroke_color,
            stroke_material,
            active_object_id,
            n,
        );
        assert(!occupied(v, cells[m as int]));
        if inside[n - 1] {
            let nv = refill(
                cells[n - 1],
                originals,
                stroke_color,
                stroke_material,
                active_object_id,
            );
            law_push_contents(v, nv);
            assert(d2.drop_last() =~= d);
            assert forall|i: int| n <= i < cells.len() implies !occupied(
                v2,
                #[trigger] cells[i],
            ) by {
                assert(!occupied(v, cells[i]));
                assert(cells[i] != cells[n - 1]);
                assert(contents(v2).contains_key(cells[i]) == contents(v).contains_key(cells[i]));
            }
            assert forall|i: int| 0 <= i < n implies occupied(v2, #[trigger] cells[i])
                == inside[i] by {
                assert(contents(v2).contains_key(cells[i]) == occupied(v2, cells[i]));
                if i < m {
                    assert(occupied(v, cells[i]) == inside[i]);
                    assert(cells[i] != cells[n - 1]);
                    assert(contents(v2).contains_key(cells[i]) == contents(v).contains_key(
                        cells[i],
                    ));
                }
            }
            assert forall|c: VoxelCoord| !cells.contains(c) implies (#[trigger] contents(
                v2,
            ).contains_key(c) == contents(voxels).contains_key(c)) && (contents(v2).contains_key(c)
                ==> contents(v2)[c] == contents(voxels)[c]) by {
                assert(c != cells[n - 1]);
                assert(contents(v).contains_key(c) == contents(voxels).contains_key(c));
            }
        }
    }
}

/// Rebuilding a list of cells: the records replay the change; afterwards a cell of
/// the list is filled exactly where it is inside the surface, every other cell
/// holds what it held, and no two voxels share a cell.
pub proof fn law_rebuilt(
    voxels: Seq<Voxel>,
    cells: Seq<VoxelCoord>,
    inside: Seq<bool>,
    stroke_color: u32,
    stroke_material: MaterialId,
    active_object_id: u32,
)
    requires
        cells_distinct(voxels),
        cells.no_duplicates(),
        inside.len() == cells.len(),
    ensures
        ({
            let (v, d) = rebuilt(
                voxels,
                cells,
                inside,
                stroke_color,
                stroke_material,
                active_object_id,
            );
            &&& cells_distinct(v)
            &&& contents(v) == replay(contents(voxels), d)
            &&& forall|i: int|
                0 <= i < cells.len() ==> occupied(v, #[trigger] cells[i]) == inside[i]
            &&& forall|c: VoxelCoord|
                !cells.contains(c) ==> (#[trigger] contents(v).contains_key(c) == contents(
                    voxels,
                ).contains_key(c)) && (contents(v).contains_key(c) ==> contents(v)[c] == contents(
                    voxels,
                )[c])
        }),
{
    let originals = voxels_in(voxels, cells);
    let (v, d) = cleared(voxels, cells);
    lemma_cleared(voxels, cells);
    assert forall|i: int| 0 <= i < cells.len() implies !occupied(v, #[trigger] cells[i]) by {
        assert(cells.to_set().contains(cells[i]));
        assert(!contents(v).contains_key(cells[i]));
    }
    lemma_refilled(
        v,
        cells,
        inside,
        originals,
        stroke_color,
        stroke_material,
        active_object_id,
        cells.len(),
    );
    let (v2, d2) = refilled(
        v,
        cells,
        inside,
        originals,
        stroke_color,
        stroke_material,
        active_object_id,
        cells.len(),
    );
    lemma_replay_concat(contents(voxels), d, d2);
    assert forall|c: VoxelCoord| !cells.contains(c) implies (#[trigger] contents(v2).contains_key(
        c,
    ) == contents(voxels).contains_key(c)) && (contents(v2).contains_key(c) ==> contents(v2)[c]
        == contents(voxels)[c]) by {
        assert(!cells.to_set().contains(c));
        assert(contents(v).contains_key(c) == contents(voxels).contains_key(c));
    }
}

/// Takes out the voxels of the listed cells.
fn clear_cells(voxels: &mut Vec<Voxel>, map: &mut CoordMap, cells: &Vec<VoxelCoord>) -> (out: Vec<
    VoxelEditDelta,
>)
    requires
        indexes(entries(*old(map)), old(voxels)@),
    ensures
        indexes(entries(*final(map)), final(voxels)@),
        (final(voxels)@, out@) == cleared(old(voxels)@, cells@),
{
    let mut out: Vec<VoxelEditDelta> = Vec::new();
    let mut i: usize = 0;
    let ghost start = voxels@;
    assert(cells@.take(0) =~= Seq::<VoxelCoord>::empty());
    while i < cells.len()
        invariant
            0 <= i <= cells@.len(),
            indexes(entries(*map), voxels@),
            (voxels@, out@) == cleared(start, cells@.take(i as int)),
        decreases cells@.len() - i,
    {
        proof {
            assert(cells@.take(i as int + 1).drop_last() =~= cells@.take(i as int));
        }
        if let Some(voxel) = remove_voxel_at(voxels, map, cells[i]) {
            out.push(VoxelEditDelta::Removed { voxel });
        }
        i += 1;
    }
    assert(cells@.take(i as int) =~= cells@);
    out
}

/// Empties the cells of a region and fills again those that are inside the surface.
fn rebuild_region(
    file: &mut VoxelleFile,
    voxel_map: &mut CoordMap,
    roi: Roi,
    inside: &Vec<bool>,
    stroke_color: u32,
    stroke_material: MaterialId,
) -> (out: Vec<VoxelEditDelta>)
    requires
        indexes(entries(*old(voxel_map)), old(file).voxels@),
        inside@.len() == region_size(roi),
        roi.3 < i32::MAX,
        roi.4 < i32::MAX,
        roi.5 < i32::MAX,
    ensures
        indexes(entries(*final(voxel_map)), final(file).voxels@),
        final(file).active_object_id == old(file).active_object_id,
        (final(file).voxels@, out@) == rebuilt(
            old(file).voxels@,
            region_cells(roi),
            inside@,
            stroke_color,
            stroke_material,
            old(file).active_object_id,
        ),
{
    let active_object_id: u32 = file.active_object_id;
    let cells = list_region(roi);
    proof {
        law_region_cells(roi);
        lemma_lookup(entries(*voxel_map), file.voxels@, (0, 0, 0));
    }
    let originals = collect_voxels(&file.voxels, voxel_map, &cells);
    let ghost start = file.voxels@;
    let mut out = clear_cells(&mut file.voxels, voxel_map, &cells);
    let ghost (base, removed) = (file.voxels@, out@);
    proof {
        lemma_cleared(start, cells@);
        assert forall|i: int| 0 <= i < cells@.len() implies !occupied(
            base,
            #[trigger] cells@[i],
        ) by {
            assert(cells@.to_set().contains(cells@[i]));
            assert(!contents(base).contains_key(cells@[i]));
        }
    }
    let mut i: usize = 0;
    assert(out@ =~= removed + Seq::<VoxelEditDelta>::empty());
    while i < cells.len()
        invariant
            0 <= i <= cells@.len(),
            cells@ == region_cells(roi),
            cells@.no_duplicates(),
            forall|c: VoxelCoord| #[trigger] cells@.contains(c) <==> in_region(c, roi),
            inside@.len() == cells@.len(),
            cells_distinct(base),
            forall|i: int| 0 <= i < cells@.len() ==> !occupied(base, #[trigger] cells@[i]),
            forall|j: int|
                0 <= j < originals@.len() ==> cells@.contains(coord_of(#[trigger] originals@[j])),
            indexes(entries(*voxel_map), file.voxels@),
            file.active_object_id == active_object_id,
            (file.voxels@, out@) == {
                let (v, d) = refilled(
                    base,
                    cells@,
                    inside@,
                    originals@,
                    stroke_color,
                    stroke_material,
                    active_object_id,
                    i as nat,
                );
                (v, removed + d)
            },
        decreases cells@.len() - i,
    {
        let c: VoxelCoord = cells[i];
        proof {
            lemma_refilled(
                base,
                cells@,
                inside@,
                originals@,
                stroke_color,
                stroke_material,
                active_object_id,
                i as nat,
            );
            assert(!occupied(file.voxels@, cells@[i as int]));
        }
        if inside[i] {
            let (color, material) = match nearest_original_voxel(c, &originals) {
                Some(near) => (near.color, near.material),
                None => (stroke_color, stroke_material),
            };
            let nv = Voxel {
                x: c.0,
                y: c.1,
                z: c.2,
                color,
                material,
                object_id: active_object_id,
            };
            append_voxel(&mut file.voxels, voxel_map, nv);
            let ghost before = out@;
            out.push(VoxelEditDelta::Added(nv));
            proof {
                let (v, d) = refilled(
                    base,
                    cells@,
                    inside@,
                    originals@,
                    stroke_color,
                    stroke_material,
                    active_object_id,
                    i as nat,
                );
                assert(out@ =~= removed + d.push(VoxelEditDelta::Added(nv)));
            }
        }
        i += 1;
    }
    out
}

/// Smooths the region round a footprint by its surface. `inside` is what came of
/// the relaxed mesh of the region: for each cell of the region whether the mesh
/// encloses it, or `None` where there was no triangle to relax. Where the region
/// is too large or holds no voxel, or there was no triangle, the majority pass
/// takes its place.
pub fn apply_sculpt_smooth_mesh_laplacian(
    file: &mut VoxelleFile,
    voxel_map: &mut CoordMap,
    footprint: &[VoxelCoord],
    grid: GridRange,
    neighbor_margin: i32,
    majority_neighbor_radius: u32,
    majority_aggressiveness: u32,
    stroke_color: u32,
    stroke_material: MaterialId,
    inside: &Option<Vec<bool>>,
) -> (out: Vec<VoxelEditDelta>)
    requires
        indexes(entries(*old(voxel_map)), old(file).voxels@),
        margin_fits(footprint@, neighbor_margin as int),
        grid_fits(grid),
        inside matches Some(flags) ==> flags@.len() == region_size(
            region(footprint@, neighbor_margin as int, grid),
        ),
    ensures
        indexes(entries(*final(voxel_map)), final(file).voxels@),
        final(file).active_object_id == old(file).active_object_id,
        ({
            let roi = region(footprint@, neighbor_margin as int, grid);
            let cells = region_cells(roi);
            let voxels = old(file).voxels@;
            let active = old(file).active_object_id;
            let by_majority = majority_pass(
                voxels,
                first_occurrences(footprint@),
                grid,
                smooth_radius(majority_neighbor_radius),
                majority_aggressiveness,
                active,
            );
            (final(file).voxels@, out@) == (if footprint@.len() == 0 {
                (voxels, Seq::<VoxelEditDelta>::empty())
            } else if region_size(roi) > 70_000 || proxies(voxels, cells, active).len() == 0 {
                by_majority
            } else {
                match *inside {
                    Some(flags) => rebuilt(
                        voxels,
                        cells,
                        flags@,
                        stroke_color,
                        stroke_material,
                        active,
                    ),
                    None => by_majority,
                }
            })
        }),
{
    match plan_mesh_laplacian(file, voxel_map, footprint, grid, neighbor_margin) {
        LaplacianPlan::Nothing => Vec::new(),
        LaplacianPlan::Majority => apply_sculpt_smooth_majority_pass(
            file,
            voxel_map,
            footprint,
            grid,
            majority_neighbor_radius,
            majority_aggressiveness,
            stroke_color,
            stroke_material,
        ),
        LaplacianPlan::Mesh { emit: _, roi } => {
            match inside {
                None => apply_sculpt_smooth_majority_pass(
                    file,
                    voxel_map,
                    footprint,
                    grid,
                    majority_neighbor_radius,
                    majority_aggressiveness,
                    stroke_color,
                    stroke_material,
                ),
                Some(flags) => {
                    proof {
                        lemma_corner_margins(footprint@, neighbor_margin as int);
                    }
                    rebuild_region(file, voxel_map, roi, flags, stroke_color, stroke_material)
                },
            }
        },
    }
}

} // verus!
