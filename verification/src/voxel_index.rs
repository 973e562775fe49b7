//! The voxel list of a model together with the map from cells to list positions.

use vstd::prelude::*;

use crate::collections::{coord_map_get, coord_map_insert, coord_map_remove, entries, CoordMap};
use crate::voxelle::{coord_of, Voxel, VoxelCoord, VoxelEditDelta};

verus! {

/// The map holds exactly the cells of the voxels, each with the position of its
/// voxel; so no two voxels share a cell.
pub open spec fn indexes(m: Map<VoxelCoord, usize>, voxels: Seq<Voxel>) -> bool {
    &&& forall|c: VoxelCoord| #[trigger]
        m.contains_key(c) ==> m[c] < voxels.len() && coord_of(voxels[m[c] as int]) == c
    &&& forall|i: int|
        #![trigger voxels[i]]
        0 <= i < voxels.len() ==> m.contains_key(coord_of(voxels[i])) && m[coord_of(voxels[i])]
            == i
}

/// A voxel of the list fills the cell.
pub open spec fn occupied(voxels: Seq<Voxel>, c: VoxelCoord) -> bool {
    exists|i: int| 0 <= i < voxels.len() && coord_of(#[trigger] voxels[i]) == c
}

/// Position of the voxel that fills a cell.
pub open spec fn position_of(voxels: Seq<Voxel>, c: VoxelCoord) -> int {
    choose|i: int| 0 <= i < voxels.len() && coord_of(#[trigger] voxels[i]) == c
}

/// The voxel that fills a cell.
pub open spec fn voxel_at(voxels: Seq<Voxel>, c: VoxelCoord) -> Voxel {
    voxels[position_of(voxels, c)]
}

/// The filled cells with their voxels.
pub open spec fn contents(voxels: Seq<Voxel>) -> Map<VoxelCoord, Voxel> {
    Map::new(|c: VoxelCoord| occupied(voxels, c), |c: VoxelCoord| voxel_at(voxels, c))
}

/// No two voxels share a cell.
pub open spec fn cells_distinct(voxels: Seq<Voxel>) -> bool {
    forall|i: int, j: int|
        0 <= i < voxels.len() && 0 <= j < voxels.len() && coord_of(#[trigger] voxels[i])
            == coord_of(#[trigger] voxels[j]) ==> i == j
}

/// The map of a model answers for the cells of its voxels.
pub proof fn lemma_lookup(m: Map<VoxelCoord, usize>, voxels: Seq<Voxel>, c: VoxelCoord)
    requires
        indexes(m, voxels),
    ensures
        cells_distinct(voxels),
        m.contains_key(c) == occupied(voxels, c),
        m.contains_key(c) ==> m[c] == position_of(voxels, c),
{
    assert forall|i: int, j: int|
        0 <= i < voxels.len() && 0 <= j < voxels.len() && coord_of(#[trigger] voxels[i])
            == coord_of(#[trigger] voxels[j]) implies i == j by {}
    if m.contains_key(c) {
        assert(coord_of(voxels[m[c] as int]) == c);
    }
    if occupied(voxels, c) {
        let i = position_of(voxels, c);
        assert(coord_of(voxels[i]) == c);
    }
}

/// The list with the voxel at position `i` taken out and the last put in its place.
pub open spec fn swap_removed(voxels: Seq<Voxel>, i: int) -> Seq<Voxel> {
    voxels.update(i, voxels.last()).drop_last()
}

/// What a recorded change does to the contents of the cells.
pub open spec fn apply_delta(
    cells: Map<VoxelCoord, Voxel>,
    delta: VoxelEditDelta,
) -> Map<VoxelCoord, Voxel> {
    match delta {
        VoxelEditDelta::Added(v) => cells.insert(coord_of(v), v),
        VoxelEditDelta::Removed { voxel } => cells.remove(coord_of(voxel)),
        VoxelEditDelta::Painted { before, after } => cells.insert(coord_of(after), after),
    }
}

/// What a list of recorded changes does to the contents of the cells.
pub open spec fn replay(
    cells: Map<VoxelCoord, Voxel>,
    deltas: Seq<VoxelEditDelta>,
) -> Map<VoxelCoord, Voxel>
    decreases deltas.len(),
{
    if deltas.len() == 0 {
        cells
    } else {
        apply_delta(replay(cells, deltas.drop_last()), deltas.last())
    }
}

/// Appending a voxel in an empty cell fills that cell and changes no other.
pub proof fn law_push_contents(voxels: Seq<Voxel>, v: Voxel)
    requires
        cells_distinct(voxels),
        !occupied(voxels, coord_of(v)),
    ensures
        cells_distinct(voxels.push(v)),
        contents(voxels.push(v)) == contents(voxels).insert(coord_of(v), v),
{
    let more = voxels.push(v);
    assert(more[voxels.len() as int] == v);
    assert forall|i: int, j: int|
        0 <= i < more.len() && 0 <= j < more.len() && coord_of(#[trigger] more[i]) == coord_of(
            #[trigger] more[j],
        ) implies i == j by {
        if i < voxels.len() {
            assert(more[i] == voxels[i]);
        }
        if j < voxels.len() {
            assert(more[j] == voxels[j]);
        }
    }
    assert forall|c: VoxelCoord|
        contents(more).contains_key(c) == contents(voxels).insert(
            coord_of(v),
            v,
        ).contains_key(c) by {
        if occupied(voxels, c) {
            let i = position_of(voxels, c);
            assert(more[i] == voxels[i]);
        }
        if occupied(more, c) && c != coord_of(v) {
            let i = position_of(more, c);
            assert(voxels[i] == more[i]);
        }
        assert(occupied(more, coord_of(v)));
    }
    assert forall|c: VoxelCoord| #[trigger] contents(more).contains_key(c) implies contents(more)[c]
        == contents(voxels).insert(coord_of(v), v)[c] by {
        let i = position_of(more, c);
        if c != coord_of(v) {
            assert(voxels[i] == more[i]);
            let j = position_of(voxels, c);
            assert(more[j] == voxels[j]);
        } else {
            assert(more[i] == more[voxels.len() as int]);
        }
    }
    assert(contents(more) =~= contents(voxels).insert(coord_of(v), v));
}

/// Taking a voxel out empties its cell and changes no other.
pub proof fn law_swap_removed_contents(voxels: Seq<Voxel>, i: int)
    requires
        cells_distinct(voxels),
        0 <= i < voxels.len(),
    ensures
        cells_distinct(swap_removed(voxels, i)),
        contents(swap_removed(voxels, i)) == contents(voxels).remove(coord_of(voxels[i])),
{
    let less = swap_removed(voxels, i);
    let last = voxels.len() - 1;
    assert forall|j: int| 0 <= j < less.len() implies #[trigger] less[j] == (if j == i {
        voxels[last]
    } else {
        voxels[j]
    }) by {}
    assert forall|j: int, k: int|
        0 <= j < less.len() && 0 <= k < less.len() && coord_of(#[trigger] less[j]) == coord_of(
            #[trigger] less[k],
        ) implies j == k by {
        let a = if j == i {
            last
        } else {
            j
        };
        let b = if k == i {
            last
        } else {
            k
        };
        assert(coord_of(voxels[a]) == coord_of(voxels[b]));
    }
    let removed = contents(voxels).remove(coord_of(voxels[i]));
    assert forall|c: VoxelCoord| contents(less).contains_key(c) == removed.contains_key(c) by {
        if occupied(less, c) {
            let j = position_of(less, c);
            let a = if j == i {
                last
            } else {
                j
            };
            assert(coord_of(voxels[a]) == c);
            assert(a != i);
            assert(coord_of(voxels[i]) != c) by {
                if coord_of(voxels[i]) == c {
                    assert(coord_of(voxels[a]) == coord_of(voxels[i]));
                }
            }
        }
        if occupied(voxels, c) && c != coord_of(voxels[i]) {
            let a = position_of(voxels, c);
            let j = if a == last {
                i
            } else {
                a
            };
            assert(coord_of(less[j]) == c);
        }
    }
    assert forall|c: VoxelCoord| #[trigger] contents(less).contains_key(c) implies contents(less)[c]
        == removed[c] by {
        let j = position_of(less, c);
        let a = if j == i {
            last
        } else {
            j
        };
        assert(coord_of(voxels[a]) == c);
        assert(occupied(voxels, c));
        let b = position_of(voxels, c);
        assert(coord_of(voxels[b]) == c);
    }
    assert(contents(less) =~= removed);
}

/// Appends a voxel in an empty cell.
pub fn append_voxel(voxels: &mut Vec<Voxel>, map: &mut CoordMap, v: Voxel)
    requires
        indexes(entries(*old(map)), old(voxels)@),
        !occupied(old(voxels)@, coord_of(v)),
    ensures
        final(voxels)@ == old(voxels)@.push(v),
        indexes(entries(*final(map)), final(voxels)@),
{
    let idx: usize = voxels.len();
    let ghost before = voxels@;
    let ghost map0 = entries(*map);
    voxels.push(v);
    coord_map_insert(map, (v.x, v.y, v.z), idx);
    proof {
        lemma_lookup(map0, before, coord_of(v));
        assert forall|c: VoxelCoord| #[trigger]
            entries(*map).contains_key(c) implies entries(*map)[c] < voxels@.len() && coord_of(
            voxels@[entries(*map)[c] as int],
        ) == c by {
            if c != coord_of(v) {
                assert(map0.contains_key(c));
                assert(voxels@[map0[c] as int] == before[map0[c] as int]);
            }
        }
        assert forall|i: int|
            #![trigger voxels@[i]]
            0 <= i < voxels@.len() implies entries(*map).contains_key(coord_of(voxels@[i]))
            && entries(*map)[coord_of(voxels@[i])] == i by {
            if i < before.len() {
                assert(voxels@[i] == before[i]);
                assert(coord_of(before[i]) != coord_of(v));
            }
        }
    }
}

/// Takes out the voxel that fills a cell, if there is one: the last voxel takes its place.
pub fn remove_voxel_at(voxels: &mut Vec<Voxel>, map: &mut CoordMap, c: VoxelCoord) -> (r: Option<
    Voxel,
>)
    requires
        indexes(entries(*old(map)), old(voxels)@),
    ensures
        indexes(entries(*final(map)), final(voxels)@),
        occupied(old(voxels)@, c) ==> r == Some(voxel_at(old(voxels)@, c)) && final(voxels)@
            == swap_removed(old(voxels)@, position_of(old(voxels)@, c)),
        !occupied(old(voxels)@, c) ==> r is None && final(voxels)@ == old(voxels)@,
{
    let ghost before = voxels@;
    let ghost map0 = entries(*map);
    proof {
        lemma_lookup(map0, before, c);
    }
    match coord_map_get(map, &c) {
        None => None,
        Some(idx) => {
            let removed = voxels[idx];
            let last: usize = voxels.len() - 1;
            if idx != last {
                let moved = voxels[last];
                voxels.set(idx, moved);
                coord_map_insert(map, (moved.x, moved.y, moved.z), idx);
            }
            voxels.pop();
            coord_map_remove(map, &c);
            proof {
                assert(voxels@ =~= swap_removed(before, idx as int));
                let m = entries(*map);
                assert forall|d: VoxelCoord| #[trigger] m.contains_key(d) implies m[d]
                    < voxels@.len() && coord_of(voxels@[m[d] as int]) == d by {
                    if idx != last && d == coord_of(before[last as int]) {
                    } else {
                        assert(map0.contains_key(d));
                        let i = map0[d] as int;
                        assert(coord_of(before[i]) == d);
                        assert(i != idx);
                        assert(i != last);
                        assert(voxels@[i] == before[i]);
                    }
                }
                assert forall|i: int|
                    #![trigger voxels@[i]]
                    0 <= i < voxels@.len() implies m.contains_key(coord_of(voxels@[i]))
                    && m[coord_of(voxels@[i])] == i by {
                    let a = if i == idx {
                        last as int
                    } else {
                        i
                    };
                    assert(voxels@[i] == before[a]);
                    assert(map0[coord_of(before[a])] == a);
                    assert(coord_of(before[a]) != c);
                }
            }
            Some(removed)
        },
    }
}

/// Taking a voxel out puts the last voxel in its place and moves no other.
pub proof fn law_swap_removed_moves_one_voxel(voxels: Seq<Voxel>, i: int, j: int)
    requires
        0 <= i < voxels.len(),
        0 <= j < voxels.len() - 1,
    ensures
        swap_removed(voxels, i).len() == voxels.len() - 1,
        j != i ==> swap_removed(voxels, i)[j] == voxels[j],
        j == i ==> swap_removed(voxels, i)[j] == voxels[voxels.len() - 1],
{
}

} // verus!
