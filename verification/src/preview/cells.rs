//! The cells that a preview shows.

use vstd::prelude::*;

use crate::collections::{
    coord_map_get, coord_map_insert, coord_map_new, coord_set_contains, coord_set_insert,
    coord_set_new, entries, members, CoordSet,
};
use crate::distinct::{first_occurrences, law_first_occurrences, unique_cells};
use crate::preview::session_keys::ClipEntry;
use crate::voxelle::VoxelCoord;

verus! {

/// A cell with its colour.
#[derive(Clone, Copy, Debug, PartialEq, Eq)]
pub struct ColoredCell {
    pub cell: VoxelCoord,
    pub color: u32,
}

/// Whether a set holds the cell at an offset from another.
pub open spec fn holds_beside(
    set: Set<VoxelCoord>,
    c: VoxelCoord,
    dx: int,
    dy: int,
    dz: int,
) -> bool {
    set.contains(((c.0 + dx) as i32, (c.1 + dy) as i32, (c.2 + dz) as i32))
}

/// Some of the six cells beside a cell is not in the set: the cell can be seen.
pub open spec fn exposed(set: Set<VoxelCoord>, c: VoxelCoord) -> bool {
    !(holds_beside(set, c, 1, 0, 0) && holds_beside(set, c, -1, 0, 0) && holds_beside(
        set,
        c,
        0,
        1,
        0,
    ) && holds_beside(set, c, 0, -1, 0) && holds_beside(set, c, 0, 0, 1) && holds_beside(
        set,
        c,
        0,
        0,
        -1,
    ))
}

/// The cell has cells beside it on every side.
pub open spec fn inner_coord(c: VoxelCoord) -> bool {
    &&& i32::MIN < c.0 < i32::MAX
    &&& i32::MIN < c.1 < i32::MAX
    &&& i32::MIN < c.2 < i32::MAX
}

/// Those cells of a list that can be seen among the cells of a set.
pub open spec fn exposed_of(cells: Seq<VoxelCoord>, set: Set<VoxelCoord>) -> Seq<VoxelCoord>
    decreases cells.len(),
{
    if cells.len() == 0 {
        seq![]
    } else {
        let head = exposed_of(cells.drop_last(), set);
        if exposed(set, cells.last()) {
            head.push(cells.last())
        } else {
            head
        }
    }
}

/// The cells of a list that can be seen, each once.
pub open spec fn shell(cells: Seq<VoxelCoord>) -> Seq<VoxelCoord> {
    exposed_of(first_occurrences(cells), cells.to_set())
}

/// Whether a cell can be seen among the cells of a set.
fn is_exposed(set: &CoordSet, c: VoxelCoord) -> (r: bool)
    requires
        inner_coord(c),
    ensures
        r == exposed(members(*set), c),
{
    !(coord_set_contains(set, &(c.0 + 1, c.1, c.2)) && coord_set_contains(set, &(c.0 - 1, c.1, c.2))
        && coord_set_contains(set, &(c.0, c.1 + 1, c.2)) && coord_set_contains(
        set,
        &(c.0, c.1 - 1, c.2),
    ) && coord_set_contains(set, &(c.0, c.1, c.2 + 1)) && coord_set_contains(
        set,
        &(c.0, c.1, c.2 - 1),
    ))
}

/// The cells of a list as a set.
fn cell_set(cells: &[VoxelCoord]) -> (set: CoordSet)
    ensures
        members(set) == cells@.to_set(),
{
    let mut set = coord_set_new();
    let mut i: usize = 0;
    assert(members(set) =~= cells@.take(0).to_set());
    while i < cells.len()
        invariant
            0 <= i <= cells@.len(),
            members(set) == cells@.take(i as int).to_set(),
        decreases cells@.len() - i,
    {
        coord_set_insert(&mut set, cells[i]);
        proof {
            let before = cells@.take(i as int);
            let after = cells@.take(i as int + 1);
            assert(after =~= before.push(cells@[i as int]));
            assert forall|c: VoxelCoord| after.to_set().contains(c) <==> before.to_set().insert(
                cells@[i as int],
            ).contains(c) by {
                if before.contains(c) {
                    let k = choose|k: int| 0 <= k < before.len() && before[k] == c;
                    assert(after[k] == c);
                }
                assert(after[i as int] == cells@[i as int]);
            }
            assert(members(set) =~= after.to_set());
        }
        i += 1;
    }
    assert(cells@.take(i as int) =~= cells@);
    set
}

/// The cells of a list that can be seen, each once.
pub fn visible_cells(cells: &[VoxelCoord]) -> (r: Vec<VoxelCoord>)
    requires
        forall|i: int| 0 <= i < cells@.len() ==> inner_coord(#[trigger] cells@[i]),
    ensures
        r@ == shell(cells@),
{
    let set = cell_set(cells);
    let unique = unique_cells(cells);
    let mut out: Vec<VoxelCoord> = Vec::new();
    let mut i: usize = 0;
    proof {
        law_first_occurrences(cells@);
        assert(unique@.take(0) =~= Seq::<VoxelCoord>::empty());
    }
    while i < unique.len()
        invariant
            0 <= i <= unique@.len(),
            unique@ == first_occurrences(cells@),
            forall|c: VoxelCoord| #[trigger] unique@.contains(c) <==> cells@.contains(c),
            forall|i: int| 0 <= i < cells@.len() ==> inner_coord(#[trigger] cells@[i]),
            members(set) == cells@.to_set(),
            out@ == exposed_of(unique@.take(i as int), cells@.to_set()),
        decreases unique@.len() - i,
    {
        let c: VoxelCoord = unique[i];
        proof {
            assert(unique@.contains(c));
            let k = choose|k: int| 0 <= k < cells@.len() && cells@[k] == c;
            assert(inner_coord(cells@[k]));
            assert(unique@.take(i as int + 1).drop_last() =~= unique@.take(i as int));
        }
        if is_exposed(&set, c) {
            out.push(c);
        }
        i += 1;
    }
    assert(unique@.take(i as int) =~= unique@);
    out
}

/// The shell of a list of cells holds exactly the cells of the list that can be
/// seen, each once.
pub proof fn law_shell(cells: Seq<VoxelCoord>)
    ensures
        shell(cells).no_duplicates(),
        forall|c: VoxelCoord| #[trigger]
            shell(cells).contains(c) <==> cells.contains(c) && exposed(cells.to_set(), c),
{
    law_first_occurrences(cells);
    lemma_exposed_of(first_occurrences(cells), cells.to_set());
    assert forall|c: VoxelCoord| #[trigger] shell(cells).contains(c) <==> cells.contains(c)
        && exposed(cells.to_set(), c) by {
        assert(first_occurrences(cells).contains(c) <==> cells.contains(c));
    }
}

proof fn lemma_exposed_of(cells: Seq<VoxelCoord>, set: Set<VoxelCoord>)
    requires
        cells.no_duplicates(),
    ensures
        exposed_of(cells, set).no_duplicates(),
        forall|c: VoxelCoord| #[trigger]
            exposed_of(cells, set).contains(c) <==> cells.contains(c) && exposed(set, c),
    decreases cells.len(),
{
    if cells.len() > 0 {
        let head = cells.drop_last();
        let last = cells.last();
        lemma_exposed_of(head, set);
        let h = exposed_of(head, set);
        let all = exposed_of(cells, set);
        assert(!head.contains(last));
        assert(!h.contains(last));
        assert forall|c: VoxelCoord| #[trigger] all.contains(c) <==> cells.contains(c) && exposed(
            set,
            c,
        ) by {
            if cells.contains(c) {
                let i = choose|i: int| 0 <= i < cells.len() && cells[i] == c;
                if i < head.len() {
                    assert(head[i] == c);
                    assert(head.contains(c));
                }
            }
            if head.contains(c) {
                let i = choose|i: int| 0 <= i < head.len() && head[i] == c;
                assert(cells[i] == c);
            }
            assert(cells[cells.len() - 1] == last);
            if h.contains(c) {
                let i = choose|i: int| 0 <= i < h.len() && h[i] == c;
                assert(all[i] == c);
            }
            if exposed(set, last) {
                assert(all[h.len() as int] == last);
            }
            if all.contains(c) {
                let i = choose|i: int| 0 <= i < all.len() && all[i] == c;
                if i < h.len() {
                    assert(h[i] == c);
                    assert(h.contains(c));
                }
            }
        }
        if exposed(set, last) {
            assert forall|i: int, j: int|
                0 <= i < all.len() && 0 <= j < all.len() && i != j implies all[i] != all[j] by {
                if i == h.len() {
                    assert(h.contains(h[j]));
                } else if j == h.len() {
                    assert(h.contains(h[i]));
                }
            }
        }
    }
}

/// The cells of a coloured list.
pub open spec fn coords_of(cells: Seq<ColoredCell>) -> Seq<VoxelCoord> {
    Seq::new(cells.len(), |i: int| cells[i].cell)
}

/// Position at which a cell last occurs in a coloured list.
pub open spec fn last_position(cells: Seq<ColoredCell>, c: VoxelCoord) -> int
    decreases cells.len(),
{
    if cells.len() == 0 {
        -1
    } else if cells.last().cell == c {
        cells.len() - 1
    } else {
        last_position(cells.drop_last(), c)
    }
}

/// Each cell of a coloured list once, with the colour that it has last.
pub open spec fn recolored(cells: Seq<ColoredCell>, places: Seq<VoxelCoord>) -> Seq<ColoredCell> {
    Seq::new(
        places.len(),
        |i: int|
            ColoredCell { cell: places[i], color: cells[last_position(cells, places[i])].color },
    )
}

proof fn lemma_last_position(cells: Seq<ColoredCell>, c: VoxelCoord)
    ensures
        coords_of(cells).contains(c) ==> 0 <= last_position(cells, c) < cells.len()
            && cells[last_position(cells, c)].cell == c,
        !coords_of(cells).contains(c) ==> last_position(cells, c) == -1,
    decreases cells.len(),
{
    if cells.len() > 0 {
        let head = cells.drop_last();
        lemma_last_position(head, c);
        if coords_of(cells).contains(c) && cells.last().cell != c {
            let i = choose|i: int| 0 <= i < cells.len() && coords_of(cells)[i] == c;
            assert(coords_of(head)[i] == c);
        }
        if coords_of(head).contains(c) {
            let i = choose|i: int| 0 <= i < head.len() && coords_of(head)[i] == c;
            assert(coords_of(cells)[i] == c);
        }
        if cells.last().cell == c {
            assert(coords_of(cells)[cells.len() - 1] == c);
        }
    }
}

/// The colours of a list of places, each the last that a coloured list gives it.
fn recolor(cells: &Vec<ColoredCell>, places: &Vec<VoxelCoord>) -> (r: Vec<ColoredCell>)
    requires
        forall|i: int|
            0 <= i < places@.len() ==> coords_of(cells@).contains(#[trigger] places@[i]),
    ensures
        r@ == recolored(cells@, places@),
{
    let mut last = coord_map_new();
    let mut i: usize = 0;
    assert(cells@.take(0) =~= Seq::<ColoredCell>::empty());
    while i < cells.len()
        invariant
            0 <= i <= cells@.len(),
            forall|c: VoxelCoord|
                #![trigger entries(last).contains_key(c)]
                last_position(cells@.take(i as int), c) == (if entries(last).contains_key(c) {
                    entries(last)[c] as int
                } else {
                    -1
                }),
        decreases cells@.len() - i,
    {
        let ghost before = entries(last);
        coord_map_insert(&mut last, cells[i].cell, i);
        proof {
            let more = cells@.take(i as int + 1);
            assert(more.drop_last() =~= cells@.take(i as int));
            assert forall|c: VoxelCoord|
                #![trigger entries(last).contains_key(c)]
                last_position(more, c) == (if entries(last).contains_key(c) {
                    entries(last)[c] as int
                } else {
                    -1
                }) by {
                assert(before.contains_key(c) || !before.contains_key(c));
            }
        }
        i += 1;
    }
    assert(cells@.take(i as int) =~= cells@);
    let mut out: Vec<ColoredCell> = Vec::new();
    let mut j: usize = 0;
    while j < places.len()
        invariant
            0 <= j <= places@.len(),
            forall|i: int|
                0 <= i < places@.len() ==> coords_of(cells@).contains(#[trigger] places@[i]),
            forall|c: VoxelCoord|
                #![trigger entries(last).contains_key(c)]
                last_position(cells@, c) == (if entries(last).contains_key(c) {
                    entries(last)[c] as int
                } else {
                    -1
                }),
            out@ == recolored(cells@, places@.take(j as int)),
        decreases places@.len() - j,
    {
        let c: VoxelCoord = places[j];
        proof {
            lemma_last_position(cells@, c);
            assert(coords_of(cells@).contains(places@[j as int]));
            assert(entries(last).contains_key(c));
        }
        let k: usize = match coord_map_get(&last, &c) {
            Some(k) => k,
            None => 0,
        };
        out.push(ColoredCell { cell: c, color: cells[k].color });
        assert(out@ =~= recolored(cells@, places@.take(j as int + 1)));
        j += 1;
    }
    assert(places@.take(j as int) =~= places@);
    out
}

/// The cells of a coloured list.
fn list_coords(cells: &Vec<ColoredCell>) -> (r: Vec<VoxelCoord>)
    ensures
        r@ == coords_of(cells@),
{
    let mut out: Vec<VoxelCoord> = Vec::new();
    let mut i: usize = 0;
    assert(out@ =~= coords_of(cells@.take(0)));
    while i < cells.len()
        invariant
            0 <= i <= cells@.len(),
            out@ == coords_of(cells@.take(i as int)),
        decreases cells@.len() - i,
    {
        out.push(cells[i].cell);
        assert(out@ =~= coords_of(cells@.take(i as int + 1)));
        i += 1;
    }
    assert(cells@.take(i as int) =~= cells@);
    out
}

/// Each cell of a coloured list once, with the colour that it has last.
pub fn distinct_colored(cells: &Vec<ColoredCell>) -> (r: Vec<ColoredCell>)
    ensures
        r@ == recolored(cells@, first_occurrences(coords_of(cells@))),
{
    let coords = list_coords(cells);
    let places = unique_cells(coords.as_slice());
    proof {
        law_first_occurrences(coords@);
        assert forall|i: int| 0 <= i < places@.len() implies coords_of(cells@).contains(
            #[trigger] places@[i],
        ) by {
            assert(places@.contains(places@[i]));
        }
    }
    recolor(cells, &places)
}

/// The cells of a coloured list that can be seen, each once, with the colour that
/// it has last.
pub fn visible_colored(cells: &Vec<ColoredCell>) -> (r: Vec<ColoredCell>)
    requires
        forall|i: int| 0 <= i < cells@.len() ==> inner_coord((#[trigger] cells@[i]).cell),
    ensures
        r@ == recolored(cells@, shell(coords_of(cells@))),
{
    let coords = list_coords(cells);
    proof {
        assert forall|i: int| 0 <= i < coords@.len() implies inner_coord(#[trigger] coords@[i]) by {
            assert(inner_coord(cells@[i].cell));
        }
        law_shell(coords@);
    }
    let places = visible_cells(coords.as_slice());
    proof {
        assert forall|i: int| 0 <= i < places@.len() implies coords_of(cells@).contains(
            #[trigger] places@[i],
        ) by {
            assert(places@.contains(places@[i]));
        }
    }
    recolor(cells, &places)
}

/// The clipboard placed at an anchor, moved by the origin that was picked.
pub open spec fn stamped(
    clip: Seq<ClipEntry>,
    anchor: VoxelCoord,
    off_x: int,
    off_z: int,
) -> Seq<ColoredCell> {
    Seq::new(
        clip.len(),
        |i: int|
            ColoredCell {
                cell: (
                    (anchor.0 + clip[i].dx - off_x) as i32,
                    (anchor.1 + clip[i].dy) as i32,
                    (anchor.2 + clip[i].dz - off_z) as i32,
                ),
                color: clip[i].color,
            },
    )
}

/// The placed clipboard can be addressed.
pub open spec fn stamp_fits(
    clip: Seq<ClipEntry>,
    anchor: VoxelCoord,
    off_x: int,
    off_z: int,
) -> bool {
    forall|i: int|
        #![trigger clip[i]]
        0 <= i < clip.len() ==> {
            &&& i32::MIN <= anchor.0 + clip[i].dx <= i32::MAX
            &&& i32::MIN <= anchor.0 + clip[i].dx - off_x <= i32::MAX
            &&& i32::MIN <= anchor.1 + clip[i].dy <= i32::MAX
            &&& i32::MIN <= anchor.2 + clip[i].dz <= i32::MAX
            &&& i32::MIN <= anchor.2 + clip[i].dz - off_z <= i32::MAX
        }
}

/// The cells that a stamp or punch reaches, each once, with the colour of the
/// clipboard cell that lands there last.
pub fn stamp_cells(
    clip: &Vec<ClipEntry>,
    anchor: VoxelCoord,
    off_x: i32,
    off_z: i32,
) -> (r: Vec<ColoredCell>)
    requires
        stamp_fits(clip@, anchor, off_x as int, off_z as int),
    ensures
        ({
            let all = stamped(clip@, anchor, off_x as int, off_z as int);
            r@ == recolored(all, first_occurrences(coords_of(all)))
        }),
{
    let mut all: Vec<ColoredCell> = Vec::new();
    let ghost whole = stamped(clip@, anchor, off_x as int, off_z as int);
    let mut i: usize = 0;
    assert(all@ =~= whole.take(0));
    while i < clip.len()
        invariant
            0 <= i <= clip@.len(),
            stamp_fits(clip@, anchor, off_x as int, off_z as int),
            whole == stamped(clip@, anchor, off_x as int, off_z as int),
            all@ == whole.take(i as int),
        decreases clip@.len() - i,
    {
        let e = clip[i];
        assert(clip@[i as int] == e);
        all.push(
            ColoredCell {
                cell: (anchor.0 + e.dx - off_x, anchor.1 + e.dy, anchor.2 + e.dz - off_z),
                color: e.color,
            },
        );
        assert(all@ =~= whole.take(i as int + 1));
        i += 1;
    }
    assert(whole.take(i as int) =~= whole);
    distinct_colored(&all)
}

} // verus!
