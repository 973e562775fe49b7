//! What the cells of a rebuilt region hold, said by what the region held before.

use vstd::prelude::*;

use crate::sculpt_mesh_smooth::laplacian::{
    cleared, distance_squared, law_nearest, law_rebuilt, lemma_cleared, lemma_refilled,
    nearest_position, proxies, rebuilt, refill, refilled,
};
use crate::sculpt_mesh_smooth::majority::voxels_in;
use crate::voxel_index::{cells_distinct, contents, law_push_contents, occupied, voxel_at};
use crate::voxelle::{coord_of, MaterialId, Voxel, VoxelCoord};

verus! {

/// Square of the distance between the middles of two cells.
#[verifier::opaque]
pub open spec fn apart(a: VoxelCoord, b: VoxelCoord) -> int {
    (a.0 - b.0) * (a.0 - b.0) + (a.1 - b.1) * (a.1 - b.1) + (a.2 - b.2) * (a.2 - b.2)
}

/// Different cells are apart, and a cell is not apart from itself.
pub proof fn law_apart(a: VoxelCoord, b: VoxelCoord)
    ensures
        apart(a, b) == 0 <==> a == b,
        apart(a, b) >= 0,
{
    reveal(apart);
    let (x, y, z) = (a.0 - b.0, a.1 - b.1, a.2 - b.2);
    assert(x * x >= 0 && (x != 0 ==> x * x > 0)) by (nonlinear_arith);
    assert(y * y >= 0 && (y != 0 ==> y * y > 0)) by (nonlinear_arith);
    assert(z * z >= 0 && (z != 0 ==> z * z > 0)) by (nonlinear_arith);
}

proof fn lemma_distance(v: Voxel, here: VoxelCoord)
    ensures
        distance_squared(v, here) == apart(coord_of(v), here),
{
    reveal(apart);
}

/// How many filled cells come before position `j` of a list.
spec fn place(voxels: Seq<Voxel>, cells: Seq<VoxelCoord>, j: int) -> int {
    voxels_in(voxels, cells.take(j)).len() as int
}

/// The voxels found in a list of cells stand in the order of their cells.
proof fn lemma_place_of(voxels: Seq<Voxel>, cells: Seq<VoxelCoord>, j: int)
    requires
        0 <= j < cells.len(),
        occupied(voxels, cells[j]),
    ensures
        0 <= place(voxels, cells, j) < voxels_in(voxels, cells).len(),
        voxels_in(voxels, cells)[place(voxels, cells, j)] == voxel_at(voxels, cells[j]),
    decreases cells.len(),
{
    let head = cells.drop_last();
    if j < head.len() {
        lemma_place_of(voxels, head, j);
        assert(head.take(j) =~= cells.take(j));
    } else {
        assert(cells.take(j) =~= head);
    }
}

/// Each voxel found in a list of cells comes from a cell of the list.
proof fn lemma_cell_of(voxels: Seq<Voxel>, cells: Seq<VoxelCoord>, m: int) -> (j: int)
    requires
        0 <= m < voxels_in(voxels, cells).len(),
    ensures
        0 <= j < cells.len(),
        occupied(voxels, cells[j]),
        place(voxels, cells, j) == m,
        voxels_in(voxels, cells)[m] == voxel_at(voxels, cells[j]),
    decreases cells.len(),
{
    let head = cells.drop_last();
    if m < voxels_in(voxels, head).len() {
        let j = lemma_cell_of(voxels, head, m);
        assert(head.take(j) =~= cells.take(j));
        j
    } else {
        assert(cells.take(cells.len() - 1) =~= head);
        cells.len() - 1
    }
}

/// More filled cells come before a later position.
proof fn lemma_place_grows(voxels: Seq<Voxel>, cells: Seq<VoxelCoord>, j: int, k: int)
    requires
        0 <= j < k <= cells.len(),
    ensures
        place(voxels, cells, j) <= place(voxels, cells, k),
        occupied(voxels, cells[j]) ==> place(voxels, cells, j) < place(voxels, cells, k),
    decreases k - j,
{
    assert(cells.take(k).drop_last() =~= cells.take(k - 1));
    assert(cells.take(k).last() == cells[k - 1]);
    if j < k - 1 {
        lemma_place_grows(voxels, cells, j, k - 1);
    }
}

/// What a refilled cell holds.
proof fn lemma_refilled_contents(
    voxels: Seq<Voxel>,
    cells: Seq<VoxelCoord>,
    inside: Seq<bool>,
    originals: Seq<Voxel>,
    stroke_color: u32,
    stroke_material: MaterialId,
    active_object_id: u32,
    n: nat,
    i: int,
)
    requires
        cells_distinct(voxels),
        cells.no_duplicates(),
        inside.len() == cells.len(),
        n <= cells.len(),
        0 <= i < n,
        inside[i],
        forall|i: int| 0 <= i < cells.len() ==> !occupied(voxels, #[trigger] cells[i]),
    ensures
        ({
            let v = refilled(
                voxels,
                cells,
                inside,
                originals,
                stroke_color,
                stroke_material,
                active_object_id,
                n,
            ).0;
            &&& contents(v).contains_key(cells[i])
            &&& contents(v)[cells[i]] == refill(
                cells[i],
                originals,
                stroke_color,
                stroke_material,
                active_object_id,
            )
        }),
    decreases n,
{
    let m = (n - 1) as nat;
    lemma_refilled(
        voxels,
        cells,
        inside,
        originals,
        stroke_color,
        stroke_material,
        active_object_id,
        m,
    );
    let v = refilled(
        voxels,
        cells,
        inside,
        originals,
        stroke_color,
        stroke_material,
        active_object_id,
        m,
    ).0;
    let nv = refill(cells[n - 1], originals, stroke_color, stroke_material, active_object_id);
    if inside[n - 1] {
        assert(!occupied(v, cells[m as int]));
        law_push_contents(v, nv);
    }
    if i < m {
        lemma_refilled_contents(
            voxels,
            cells,
            inside,
            originals,
            stroke_color,
            stroke_material,
            active_object_id,
            m,
            i,
        );
        assert(cells[i] != cells[n - 1]);
    }
}

/// A cell that a rebuild fills is of the active object, and looks like an old voxel
/// of the region: one that no other old voxel of the region is nearer than, and the
/// first in the region's list of those as near. Where the region held none it looks
/// like the stroke.
pub proof fn law_rebuilt_cells_look_like_the_nearest(
    voxels: Seq<Voxel>,
    cells: Seq<VoxelCoord>,
    inside: Seq<bool>,
    stroke_color: u32,
    stroke_material: MaterialId,
    active_object_id: u32,
    i: int,
)
    requires
        cells_distinct(voxels),
        cells.no_duplicates(),
        inside.len() == cells.len(),
        0 <= i < cells.len(),
        inside[i],
    ensures
        ({
            let old_contents = contents(voxels);
            let new_contents = contents(
                rebuilt(
                    voxels,
                    cells,
                    inside,
                    stroke_color,
                    stroke_material,
                    active_object_id,
                ).0,
            );
            let here = cells[i];
            let new = new_contents[here];
            &&& new_contents.contains_key(here)
            &&& coord_of(new) == here
            &&& new.object_id == active_object_id
            &&& (forall|j: int|
                0 <= j < cells.len() ==> !old_contents.contains_key(#[trigger] cells[j]))
                ==> new.color == stroke_color && new.material == stroke_material
            &&& (exists|j: int|
                0 <= j < cells.len() && old_contents.contains_key(#[trigger] cells[j]))
                ==> exists|j: int|
                {
                    &&& 0 <= j < cells.len()
                    &&& old_contents.contains_key(#[trigger] cells[j])
                    &&& new.color == old_contents[cells[j]].color
                    &&& new.material == old_contents[cells[j]].material
                    &&& forall|k: int|
                        0 <= k < cells.len() && old_contents.contains_key(#[trigger] cells[k])
                            ==> apart(cells[j], here) <= apart(cells[k], here) && (k < j
                            ==> apart(cells[j], here) < apart(cells[k], here))
                }
        }),
{
    let originals = voxels_in(voxels, cells);
    let here = cells[i];
    let (v, d) = cleared(voxels, cells);
    lemma_cleared(voxels, cells);
    assert forall|i: int| 0 <= i < cells.len() implies !occupied(v, #[trigger] cells[i]) by {
        assert(cells.to_set().contains(cells[i]));
        assert(!contents(v).contains_key(cells[i]));
    }
    lemma_refilled_contents(
        v,
        cells,
        inside,
        originals,
        stroke_color,
        stroke_material,
        active_object_id,
        cells.len(),
        i,
    );
    let old_contents = contents(voxels);
    if originals.len() == 0 {
        assert forall|j: int| 0 <= j < cells.len() implies !old_contents.contains_key(
            #[trigger] cells[j],
        ) by {
            if occupied(voxels, cells[j]) {
                lemma_place_of(voxels, cells, j);
            }
        }
    } else {
        let j = lemma_nearest_cell(voxels, cells, here);
        assert(old_contents.contains_key(cells[j]));
        assert(old_contents[cells[j]] == voxel_at(voxels, cells[j]));
        assert forall|k: int|
            0 <= k < cells.len() && old_contents.contains_key(#[trigger] cells[k]) implies apart(
            cells[j],
            here,
        ) <= apart(cells[k], here) && (k < j ==> apart(cells[j], here) < apart(cells[k], here)) by {
            assert(occupied(voxels, cells[k]));
        }
    }
}

/// The cell of the nearest voxel found in a list of cells.
proof fn lemma_nearest_cell(voxels: Seq<Voxel>, cells: Seq<VoxelCoord>, here: VoxelCoord) -> (j:
    int)
    requires
        voxels_in(voxels, cells).len() > 0,
    ensures
        0 <= j < cells.len(),
        occupied(voxels, cells[j]),
        ({
            let found = voxels_in(voxels, cells);
            found[nearest_position(found, here, found.len())] == voxel_at(voxels, cells[j])
        }),
        forall|k: int|
            0 <= k < cells.len() && occupied(voxels, #[trigger] cells[k]) ==> apart(cells[j], here)
                <= apart(cells[k], here) && (k < j ==> apart(cells[j], here) < apart(
                cells[k],
                here,
            )),
{
    let found = voxels_in(voxels, cells);
    law_nearest(found, here, found.len());
    let m = nearest_position(found, here, found.len());
    let j = lemma_cell_of(voxels, cells, m);
    assert(coord_of(voxel_at(voxels, cells[j])) == cells[j]);
    lemma_distance(found[m], here);
    assert forall|k: int|
        0 <= k < cells.len() && occupied(voxels, #[trigger] cells[k]) implies apart(cells[j], here)
        <= apart(cells[k], here) && (k < j ==> apart(cells[j], here) < apart(cells[k], here)) by {
        let q = place(voxels, cells, k);
        lemma_place_of(voxels, cells, k);
        assert(coord_of(voxel_at(voxels, cells[k])) == cells[k]);
        lemma_distance(found[q], here);
        if k < j {
            lemma_place_grows(voxels, cells, k, j);
        }
    }
    j
}

/// A cell of the region that was filled and is filled again keeps its colour and
/// its material.
pub proof fn law_rebuilt_cells_keep_their_look(
    voxels: Seq<Voxel>,
    cells: Seq<VoxelCoord>,
    inside: Seq<bool>,
    stroke_color: u32,
    stroke_material: MaterialId,
    active_object_id: u32,
    i: int,
)
    requires
        cells_distinct(voxels),
        cells.no_duplicates(),
        inside.len() == cells.len(),
        0 <= i < cells.len(),
        contents(voxels).contains_key(cells[i]),
        contents(
            rebuilt(voxels, cells, inside, stroke_color, stroke_material, active_object_id).0,
        ).contains_key(cells[i]),
    ensures
        ({
            let was = contents(voxels)[cells[i]];
            let is = contents(
                rebuilt(
                    voxels,
                    cells,
                    inside,
                    stroke_color,
                    stroke_material,
                    active_object_id,
                ).0,
            )[cells[i]];
            is.color == was.color && is.material == was.material
        }),
{
    law_rebuilt(voxels, cells, inside, stroke_color, stroke_material, active_object_id);
    let v = rebuilt(voxels, cells, inside, stroke_color, stroke_material, active_object_id).0;
    assert(occupied(v, cells[i]) == inside[i]);
    law_rebuilt_cells_look_like_the_nearest(
        voxels,
        cells,
        inside,
        stroke_color,
        stroke_material,
        active_object_id,
        i,
    );
    let old_contents = contents(voxels);
    let here = cells[i];
    let new = contents(v)[here];
    let j = choose|j: int|
        {
            &&& 0 <= j < cells.len()
            &&& old_contents.contains_key(#[trigger] cells[j])
            &&& new.color == old_contents[cells[j]].color
            &&& new.material == old_contents[cells[j]].material
            &&& forall|k: int|
                0 <= k < cells.len() && old_contents.contains_key(#[trigger] cells[k]) ==> apart(
                    cells[j],
                    here,
                ) <= apart(cells[k], here) && (k < j ==> apart(cells[j], here) < apart(
                    cells[k],
                    here,
                ))
        };
    assert(apart(cells[j], here) <= apart(cells[i], here));
    law_apart(cells[i], here);
    law_apart(cells[j], here);
}

/// What is meshed of a list of cells: for each voxel found in them, in their order, a
/// grey plastic one of the active object in the same cell.
pub proof fn law_proxies_stand_for_the_voxels_found(
    voxels: Seq<Voxel>,
    cells: Seq<VoxelCoord>,
    active_object_id: u32,
    m: int,
)
    requires
        0 <= m < voxels_in(voxels, cells).len(),
    ensures
        proxies(voxels, cells, active_object_id).len() == voxels_in(voxels, cells).len(),
        ({
            let p = proxies(voxels, cells, active_object_id)[m];
            &&& coord_of(p) == coord_of(voxels_in(voxels, cells)[m])
            &&& p.color == 0x888888
            &&& p.material == MaterialId::Plastic
            &&& p.object_id == active_object_id
        }),
    decreases cells.len(),
{
    let head = cells.drop_last();
    lemma_as_many_proxies(voxels, cells, active_object_id);
    lemma_as_many_proxies(voxels, head, active_object_id);
    if m < voxels_in(voxels, head).len() {
        law_proxies_stand_for_the_voxels_found(voxels, head, active_object_id, m);
    } else {
        assert(coord_of(voxel_at(voxels, cells.last())) == cells.last());
    }
}

proof fn lemma_as_many_proxies(
    voxels: Seq<Voxel>,
    cells: Seq<VoxelCoord>,
    active_object_id: u32,
)
    ensures
        proxies(voxels, cells, active_object_id).len() == voxels_in(voxels, cells).len(),
    decreases cells.len(),
{
    if cells.len() > 0 {
        lemma_as_many_proxies(voxels, cells.drop_last(), active_object_id);
    }
}

} // verus!
