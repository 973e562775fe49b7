//! What the cells of a preview are, said by the cells that it was made from.

use vstd::prelude::*;

use crate::preview::cells::{
    coords_of, exposed, inner_coord, last_position, law_shell, recolored,
    shell, stamp_fits, stamped, ColoredCell,
};
use crate::preview::plan::placeable;
use crate::preview::session_keys::ClipEntry;
use crate::sculpt_mesh_smooth::majority_laws::gap;
use crate::voxelle::VoxelCoord;

verus! {

/// Two cells share a face.
pub open spec fn share_a_face(a: VoxelCoord, b: VoxelCoord) -> bool {
    gap(a.0 as int, b.0 as int) + gap(a.1 as int, b.1 as int) + gap(a.2 as int, b.2 as int) == 1
}

/// A cell of a list is shown exactly where some cell that shares a face with it is
/// not in the list.
pub proof fn law_shell_leaves_out_the_enclosed(cells: Seq<VoxelCoord>, c: VoxelCoord)
    requires
        cells.contains(c),
        inner_coord(c),
    ensures
        shell(cells).contains(c) <==> exists|d: VoxelCoord|
            share_a_face(c, d) && !#[trigger] cells.contains(d),
{
    law_shell(cells);
    let set = cells.to_set();
    let sides: Seq<VoxelCoord> = seq![
        ((c.0 + 1) as i32, c.1, c.2),
        ((c.0 - 1) as i32, c.1, c.2),
        (c.0, (c.1 + 1) as i32, c.2),
        (c.0, (c.1 - 1) as i32, c.2),
        (c.0, c.1, (c.2 + 1) as i32),
        (c.0, c.1, (c.2 - 1) as i32),
    ];
    assert forall|i: int| 0 <= i < 6 implies share_a_face(c, #[trigger] sides[i]) by {}
    if exposed(set, c) {
        assert(exists|i: int| 0 <= i < 6 && !set.contains(#[trigger] sides[i])) by {
            assert(!set.contains(sides[0]) || !set.contains(sides[1]) || !set.contains(sides[2])
                || !set.contains(sides[3]) || !set.contains(sides[4]) || !set.contains(sides[5]));
        }
        let i = choose|i: int| 0 <= i < 6 && !set.contains(#[trigger] sides[i]);
        assert(share_a_face(c, sides[i]) && !cells.contains(sides[i]));
    }
    if exists|d: VoxelCoord| share_a_face(c, d) && !#[trigger] cells.contains(d) {
        let d = choose|d: VoxelCoord| share_a_face(c, d) && !#[trigger] cells.contains(d);
        assert(!set.contains(d));
        assert(d == sides[0] || d == sides[1] || d == sides[2] || d == sides[3] || d == sides[4]
            || d == sides[5]);
    }
}

/// A cell that occurs more than once in a coloured list has the colour of its last
/// occurrence.
pub proof fn law_last_color_wins(cells: Seq<ColoredCell>, places: Seq<VoxelCoord>, i: int, j: int)
    requires
        0 <= i < places.len(),
        0 <= j < cells.len(),
        cells[j].cell == places[i],
        forall|k: int| j < k < cells.len() ==> (#[trigger] cells[k]).cell != places[i],
    ensures
        recolored(cells, places)[i] == (ColoredCell { cell: places[i], color: cells[j].color }),
        recolored(cells, places).len() == places.len(),
{
    lemma_last_is(cells, places[i], j);
}

proof fn lemma_last_is(cells: Seq<ColoredCell>, c: VoxelCoord, j: int)
    requires
        0 <= j < cells.len(),
        cells[j].cell == c,
        forall|k: int| j < k < cells.len() ==> (#[trigger] cells[k]).cell != c,
    ensures
        last_position(cells, c) == j,
    decreases cells.len(),
{
    if j < cells.len() - 1 {
        lemma_last_is(cells.drop_last(), c, j);
    }
}

/// The clipboard cell at the origin that was picked lands on the anchor, and every
/// other keeps its offset from that one; each keeps its colour.
pub proof fn law_stamp_keeps_its_shape(
    clip: Seq<ClipEntry>,
    anchor: VoxelCoord,
    off_x: int,
    off_z: int,
    i: int,
)
    requires
        stamp_fits(clip, anchor, off_x, off_z),
        0 <= i < clip.len(),
    ensures
        ({
            let all = stamped(clip, anchor, off_x, off_z);
            &&& all.len() == clip.len()
            &&& all[i].color == clip[i].color
            &&& clip[i].dx == off_x && clip[i].dy == 0 && clip[i].dz == off_z ==> all[i].cell
                == anchor
            &&& forall|j: int|
                0 <= j < clip.len() ==> {
                    let (a, b) = (all[i].cell, (#[trigger] all[j]).cell);
                    &&& b.0 - a.0 == clip[j].dx - clip[i].dx
                    &&& b.1 - a.1 == clip[j].dy - clip[i].dy
                    &&& b.2 - a.2 == clip[j].dz - clip[i].dz
                }
        }),
{
    assert(clip[i] == clip[i]);
    let all = stamped(clip, anchor, off_x, off_z);
    assert forall|j: int| 0 <= j < clip.len() implies {
        let (a, b) = (all[i].cell, (#[trigger] all[j]).cell);
        &&& b.0 - a.0 == clip[j].dx - clip[i].dx
        &&& b.1 - a.1 == clip[j].dy - clip[i].dy
        &&& b.2 - a.2 == clip[j].dz - clip[i].dz
    } by {
        assert(clip[j] == clip[j]);
    }
}

/// Moving the anchor moves the stamp by as much; moving the origin moves it back,
/// along x and z alone.
pub proof fn law_stamp_follows_its_anchor(
    clip: Seq<ClipEntry>,
    a: VoxelCoord,
    b: VoxelCoord,
    off_x: int,
    off_z: int,
    to_x: int,
    to_z: int,
    i: int,
)
    requires
        stamp_fits(clip, a, off_x, off_z),
        stamp_fits(clip, b, to_x, to_z),
        0 <= i < clip.len(),
    ensures
        ({
            let p = stamped(clip, a, off_x, off_z)[i].cell;
            let q = stamped(clip, b, to_x, to_z)[i].cell;
            &&& q.0 - p.0 == (b.0 - a.0) - (to_x - off_x)
            &&& q.1 - p.1 == b.1 - a.1
            &&& q.2 - p.2 == (b.2 - a.2) - (to_z - off_z)
        }),
{
    assert(clip[i] == clip[i]);
}

/// A shape may fill a cell of its list exactly where it overwrites or the cell is
/// empty.
pub proof fn law_shapes_spare_filled_cells(
    cells: Seq<VoxelCoord>,
    overwrite: bool,
    map: Map<VoxelCoord, usize>,
    c: VoxelCoord,
)
    ensures
        placeable(cells, overwrite, map).contains(c) <==> cells.contains(c) && (overwrite
            || !map.contains_key(c)),
        overwrite ==> placeable(cells, overwrite, map) == cells,
    decreases cells.len(),
{
    if cells.len() > 0 {
        let head = cells.drop_last();
        let last = cells.last();
        law_shapes_spare_filled_cells(head, overwrite, map, c);
        let h = placeable(head, overwrite, map);
        let all = placeable(cells, overwrite, map);
        assert(head.push(last) =~= cells);
        assert(cells[cells.len() - 1] == last);
        if cells.contains(c) {
            let i = choose|i: int| 0 <= i < cells.len() && cells[i] == c;
            if i < head.len() {
                assert(head[i] == c);
            }
        }
        if head.contains(c) {
            let i = choose|i: int| 0 <= i < head.len() && head[i] == c;
            assert(cells[i] == c);
        }
        if h.contains(c) {
            let i = choose|i: int| 0 <= i < h.len() && h[i] == c;
            assert(all[i] == c);
        }
        if overwrite || !map.contains_key(last) {
            assert(all[h.len() as int] == last);
            if all.contains(c) {
                let i = choose|i: int| 0 <= i < all.len() && all[i] == c;
                if i < h.len() {
                    assert(h[i] == c);
                }
            }
        }
    } else {
        assert(placeable(cells, overwrite, map) =~= cells);
    }
}

} // verus!
