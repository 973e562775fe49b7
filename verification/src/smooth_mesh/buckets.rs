//! Surfaces of a whole model: one per colour and material, merged.

use vstd::prelude::*;

use crate::collections::{
    bucket_entries, bucket_map_get, bucket_map_insert, bucket_map_new,
    coord_map_insert, coord_map_new, entries, BucketMap, CoordMap,
};
use crate::smooth_mesh::contour::contoured;
use crate::smooth_mesh::lattice::{
    bounds, cells_of, high_corner, lattice_fits, lemma_corners, low_corner, node_count,
    positions_in, Cells,
};
use crate::smooth_mesh::marching::{surface_triangles, welded};
use crate::smooth_mesh::surface::{merged, Surface};
use crate::voxelle::{coord_of, material_of_rank, material_rank, Voxel, VoxelCoord};

verus! {

/// Colour and material tag of a voxel: voxels that share both are one bucket.
pub open spec fn bucket_key(v: Voxel) -> (u32, u8) {
    (v.color, material_rank(v.material) as u8)
}

/// Colour and material tag of a voxel: voxels that share both are one bucket.
pub fn bucket_key_parts(v: &Voxel) -> (r: (u32, u8))
    ensures
        r == bucket_key(*v),
{
    (v.color, v.material.material_index())
}

/// The cell of a voxel.
pub fn coord_key(x: i32, y: i32, z: i32) -> (r: VoxelCoord)
    ensures
        r == (x, y, z),
{
    (x, y, z)
}

/// For each cell of a bucket, the position of its voxel; where several voxels of
/// the bucket share a cell, of the last.
pub open spec fn bucket_positions(voxels: Seq<Voxel>, k: (u32, u8)) -> Map<VoxelCoord, usize>
    decreases voxels.len(),
{
    if voxels.len() == 0 {
        Map::empty()
    } else {
        let head = bucket_positions(voxels.drop_last(), k);
        if bucket_key(voxels.last()) == k {
            head.insert(coord_of(voxels.last()), (voxels.len() - 1) as usize)
        } else {
            head
        }
    }
}

/// For each filled cell, the position of its voxel; where several voxels share a
/// cell, of the last.
pub open spec fn all_positions(voxels: Seq<Voxel>) -> Map<VoxelCoord, usize>
    decreases voxels.len(),
{
    if voxels.len() == 0 {
        Map::empty()
    } else {
        all_positions(voxels.drop_last()).insert(
            coord_of(voxels.last()),
            (voxels.len() - 1) as usize,
        )
    }
}

/// The keys of the buckets of a model.
pub open spec fn bucket_keys(voxels: Seq<Voxel>) -> Set<(u32, u8)> {
    Set::new(|k: (u32, u8)| exists|i: int| 0 <= i < voxels.len() && bucket_key(#[trigger] voxels[i]) == k)
}

/// Cells of a bucket.
pub open spec fn bucket_cells(voxels: Seq<Voxel>, k: (u32, u8)) -> Cells {
    cells_of(bucket_positions(voxels, k), voxels)
}

/// Cells of a model.
pub open spec fn model_cells(voxels: Seq<Voxel>) -> Cells {
    cells_of(all_positions(voxels), voxels)
}

/// The positions of a bucket name voxels of it, each in the cell that it fills.
pub(crate) proof fn lemma_bucket_positions(voxels: Seq<Voxel>, k: (u32, u8))
    requires
        voxels.len() <= usize::MAX,
    ensures
        forall|c: VoxelCoord| #[trigger]
            bucket_positions(voxels, k).contains_key(c) ==> {
                let i = bucket_positions(voxels, k)[c];
                i < voxels.len() && coord_of(voxels[i as int]) == c && bucket_key(voxels[i as int])
                    == k
            },
        forall|i: int|
            0 <= i < voxels.len() && bucket_key(#[trigger] voxels[i]) == k ==> bucket_positions(
                voxels,
                k,
            ).contains_key(coord_of(voxels[i])),
        (bucket_positions(voxels, k).dom() == Set::<VoxelCoord>::empty()) <==> !bucket_keys(
            voxels,
        ).contains(k),
    decreases voxels.len(),
{
    if voxels.len() > 0 {
        let head = voxels.drop_last();
        lemma_bucket_positions(head, k);
        assert forall|c: VoxelCoord| #[trigger]
            bucket_positions(voxels, k).contains_key(c) implies {
            let i = bucket_positions(voxels, k)[c];
            i < voxels.len() && coord_of(voxels[i as int]) == c && bucket_key(voxels[i as int])
                == k
        } by {
            if bucket_key(voxels.last()) == k && c == coord_of(voxels.last()) {
            } else {
                assert(bucket_positions(head, k).contains_key(c));
                let i = bucket_positions(head, k)[c];
                assert(head[i as int] == voxels[i as int]);
            }
        }
        assert forall|i: int|
            0 <= i < voxels.len() && bucket_key(
                #[trigger] voxels[i],
            ) == k implies bucket_positions(voxels, k).contains_key(coord_of(voxels[i])) by {
            if i < head.len() {
                assert(head[i] == voxels[i]);
            }
        }
    }
    let dom = bucket_positions(voxels, k).dom();
    if bucket_keys(voxels).contains(k) {
        let i = choose|i: int| 0 <= i < voxels.len() && bucket_key(#[trigger] voxels[i]) == k;
        assert(dom.contains(coord_of(voxels[i])));
    } else {
        assert forall|c: VoxelCoord| !dom.contains(c) by {
            if dom.contains(c) {
                assert(bucket_positions(voxels, k).contains_key(c));
                let i = bucket_positions(voxels, k)[c];
                assert(bucket_key(voxels[i as int]) == k);
            }
        }
        assert(dom =~= Set::<VoxelCoord>::empty());
    }
}

pub(crate) proof fn lemma_all_positions(voxels: Seq<Voxel>)
    requires
        voxels.len() <= usize::MAX,
    ensures
        positions_in(all_positions(voxels), voxels),
        forall|i: int|
            0 <= i < voxels.len() ==> all_positions(voxels).contains_key(
                coord_of(#[trigger] voxels[i]),
            ),
    decreases voxels.len(),
{
    if voxels.len() > 0 {
        let head = voxels.drop_last();
        lemma_all_positions(head);
        assert forall|i: int| 0 <= i < voxels.len() implies all_positions(voxels).contains_key(
            coord_of(#[trigger] voxels[i]),
        ) by {
            if i < head.len() {
                assert(head[i] == voxels[i]);
            }
        }
        assert forall|c: VoxelCoord| #[trigger]
            all_positions(voxels).contains_key(c) implies all_positions(voxels)[c]
            < voxels.len() by {
            if c != coord_of(voxels.last()) {
                assert(all_positions(head).contains_key(c));
            }
        }
    }
}

/// The cells of a bucket are cells of the model.
pub(crate) proof fn lemma_bucket_in_model(voxels: Seq<Voxel>, k: (u32, u8))
    requires
        voxels.len() <= usize::MAX,
    ensures
        bucket_positions(voxels, k).dom().subset_of(all_positions(voxels).dom()),
{
    lemma_bucket_positions(voxels, k);
    lemma_all_positions(voxels);
    assert forall|c: VoxelCoord| #[trigger]
        bucket_positions(voxels, k).dom().contains(c) implies all_positions(
        voxels,
    ).dom().contains(c) by {
        assert(bucket_positions(voxels, k).contains_key(c));
        let i = bucket_positions(voxels, k)[c];
        assert(all_positions(voxels).contains_key(coord_of(voxels[i as int])));
    }
}

/// The buckets of a model: `maps[i]` holds the bucket whose key has `i` in `index`.
pub struct Buckets {
    pub index: BucketMap,
    pub maps: Vec<CoordMap>,
}

impl Buckets {
    /// The buckets are those of the model.
    pub open spec fn sorts(&self, voxels: Seq<Voxel>) -> bool {
        &&& bucket_entries(self.index).dom() == bucket_keys(voxels)
        &&& forall|k: (u32, u8)| #[trigger]
            bucket_entries(self.index).contains_key(k) ==> {
                &&& bucket_entries(self.index)[k] < self.maps@.len()
                &&& entries(self.maps@[bucket_entries(self.index)[k] as int]) == bucket_positions(
                    voxels,
                    k,
                )
            }
        &&& forall|k: (u32, u8), l: (u32, u8)|
            #![trigger bucket_entries(self.index).contains_key(k), bucket_entries(self.index).contains_key(l)]
            bucket_entries(self.index).contains_key(k) && bucket_entries(self.index).contains_key(l)
                && bucket_entries(self.index)[k] == bucket_entries(self.index)[l] ==> k == l
    }
}

/// Sorts the voxels of a model into buckets.
pub fn sort_into_buckets(voxels: &[Voxel]) -> (b: Buckets)
    ensures
        b.sorts(voxels@),
{
    let mut b = Buckets { index: bucket_map_new(), maps: Vec::new() };
    let mut i: usize = 0;
    proof {
        assert(voxels@.take(0) =~= Seq::<Voxel>::empty());
        assert(bucket_entries(b.index).dom() =~= bucket_keys(voxels@.take(0)));
    }
    while i < voxels.len()
        invariant
            0 <= i <= voxels@.len(),
            b.sorts(voxels@.take(i as int)),
        decreases voxels@.len() - i,
    {
        let v = voxels[i];
        let k: (u32, u8) = bucket_key_parts(&v);
        let ghost head = voxels@.take(i as int);
        let ghost next = voxels@.take(i as int + 1);
        let ghost before = b;
        let slot: usize = match bucket_map_get(&b.index, &k) {
            Some(slot) => slot,
            None => {
                let slot: usize = b.maps.len();
                b.maps.push(coord_map_new());
                bucket_map_insert(&mut b.index, k, slot);
                proof {
                    lemma_bucket_positions(head, k);
                    assert(bucket_positions(head, k) =~= Map::<VoxelCoord, usize>::empty());
                }
                slot
            },
        };
        let ghost mid = b;
        proof {
            assert(mid.maps@.len() > slot);
            assert(entries(mid.maps@[slot as int]) == bucket_positions(head, k));
        }
        let map = &mut b.maps[slot];
        coord_map_insert(map, coord_key(v.x, v.y, v.z), i);
        proof {
            assert(next.drop_last() =~= head);
            assert(next.last() == v);
            assert forall|l: (u32, u8)| #[trigger]
                bucket_entries(b.index).dom().contains(l) <==> bucket_keys(next).contains(l) by {
                if bucket_keys(head).contains(l) {
                    let j = choose|j: int| 0 <= j < head.len() && bucket_key(#[trigger] head[j]) == l;
                    assert(next[j] == head[j]);
                }
                assert(bucket_key(next[i as int]) == k);
                if bucket_keys(next).contains(l) {
                    let j = choose|j: int| 0 <= j < next.len() && bucket_key(#[trigger] next[j]) == l;
                    if j < head.len() {
                        assert(head[j] == next[j]);
                    }
                }
            }
            assert(bucket_entries(b.index).dom() =~= bucket_keys(next));
            assert forall|l: (u32, u8)| #[trigger]
                bucket_entries(b.index).contains_key(l) implies {
                &&& bucket_entries(b.index)[l] < b.maps@.len()
                &&& entries(b.maps@[bucket_entries(b.index)[l] as int]) == bucket_positions(next, l)
            } by {
                if l != k {
                    assert(bucket_entries(before.index).contains_key(l));
                    assert(bucket_entries(b.index)[l] != slot) by {
                        if bucket_entries(before.index).contains_key(k) {
                            assert(bucket_entries(before.index)[l]
                                != bucket_entries(before.index)[k]);
                        }
                    }
                }
            }
        }
        i += 1;
    }
    assert(voxels@.take(i as int) =~= voxels@);
    b
}

/// Lesser of two coordinates.
spec fn lesser(a: i32, b: i32) -> i32 {
    if a < b {
        a
    } else {
        b
    }
}

/// Greater of two coordinates.
spec fn greater(a: i32, b: i32) -> i32 {
    if a > b {
        a
    } else {
        b
    }
}

/// A set of cells with one more cell has tight bounds if it had them, or held no cell.
proof fn lemma_bounds_insert(dom: Set<VoxelCoord>, c: VoxelCoord)
    requires
        dom == Set::<VoxelCoord>::empty() || bounds(dom, low_corner(dom), high_corner(dom)),
    ensures
        bounds(
            dom.insert(c),
            low_corner(dom.insert(c)),
            high_corner(dom.insert(c)),
        ),
{
    let more = dom.insert(c);
    assert(more.contains(c));
    if dom == Set::<VoxelCoord>::empty() {
        assert(bounds(more, c, c));
        lemma_corners(more, c, c);
    } else {
        let (l, h) = (low_corner(dom), high_corner(dom));
        let lo = (lesser(l.0, c.0), lesser(l.1, c.1), lesser(l.2, c.2));
        let hi = (greater(h.0, c.0), greater(h.1, c.1), greater(h.2, c.2));
        let a0 = choose|a: VoxelCoord| #[trigger] dom.contains(a) && a.0 == l.0;
        let a1 = choose|a: VoxelCoord| #[trigger] dom.contains(a) && a.1 == l.1;
        let a2 = choose|a: VoxelCoord| #[trigger] dom.contains(a) && a.2 == l.2;
        let b0 = choose|a: VoxelCoord| #[trigger] dom.contains(a) && a.0 == h.0;
        let b1 = choose|a: VoxelCoord| #[trigger] dom.contains(a) && a.1 == h.1;
        let b2 = choose|a: VoxelCoord| #[trigger] dom.contains(a) && a.2 == h.2;
        assert(more.contains(a0) && more.contains(a1) && more.contains(a2));
        assert(more.contains(b0) && more.contains(b1) && more.contains(b2));
        assert(bounds(more, lo, hi));
        lemma_corners(more, lo, hi);
    }
}

pub(crate) proof fn lemma_bucket_bounds(voxels: Seq<Voxel>, k: (u32, u8))
    ensures
        ({
            let dom = bucket_positions(voxels, k).dom();
            dom == Set::<VoxelCoord>::empty() || bounds(dom, low_corner(dom), high_corner(dom))
        }),
    decreases voxels.len(),
{
    if voxels.len() > 0 {
        let head = bucket_positions(voxels.drop_last(), k);
        let c = coord_of(voxels.last());
        lemma_bucket_bounds(voxels.drop_last(), k);
        lemma_bounds_insert(head.dom(), c);
        if bucket_key(voxels.last()) == k {
            assert(bucket_positions(voxels, k).dom() =~= head.dom().insert(c));
        }
    } else {
        assert(bucket_positions(voxels, k).dom() =~= Set::<VoxelCoord>::empty());
    }
}

pub(crate) proof fn lemma_model_bounds(voxels: Seq<Voxel>)
    ensures
        ({
            let dom = all_positions(voxels).dom();
            dom == Set::<VoxelCoord>::empty() || bounds(dom, low_corner(dom), high_corner(dom))
        }),
    decreases voxels.len(),
{
    if voxels.len() > 0 {
        let head = all_positions(voxels.drop_last());
        let c = coord_of(voxels.last());
        lemma_model_bounds(voxels.drop_last());
        lemma_bounds_insert(head.dom(), c);
        assert(all_positions(voxels).dom() =~= head.dom().insert(c));
    } else {
        assert(all_positions(voxels).dom() =~= Set::<VoxelCoord>::empty());
    }
}

/// The lattice of every bucket of the model can be addressed.
pub open spec fn buckets_fit(voxels: Seq<Voxel>) -> bool {
    forall|k: (u32, u8)|
        #![trigger bucket_positions(voxels, k)]
        bucket_positions(voxels, k).dom() != Set::<VoxelCoord>::empty() ==> lattice_fits(
            bucket_positions(voxels, k).dom(),
        )
}

/// The lattice of the model can be addressed.
pub open spec fn model_fits(voxels: Seq<Voxel>) -> bool {
    all_positions(voxels).dom() != Set::<VoxelCoord>::empty() ==> lattice_fits(
        all_positions(voxels).dom(),
    )
}

/// Every voxel lies within `reach` cells of the origin on each axis.
pub open spec fn within_reach(voxels: Seq<Voxel>, reach: int) -> bool {
    forall|i: int|
        0 <= i < voxels.len() ==> -reach <= (#[trigger] voxels[i]).x <= reach && -reach
            <= voxels[i].y <= reach && -reach <= voxels[i].z <= reach
}

proof fn lemma_small_set_fits(dom: Set<VoxelCoord>)
    requires
        bounds(dom, low_corner(dom), high_corner(dom)),
        forall|c: VoxelCoord| #[trigger]
            dom.contains(c) ==> -800 <= c.0 <= 800 && -800 <= c.1 <= 800 && -800 <= c.2 <= 800,
    ensures
        lattice_fits(dom),
{
    let lo = low_corner(dom);
    let hi = high_corner(dom);
    let (a, b, c) = (
        node_count(lo.0, hi.0),
        node_count(lo.1, hi.1),
        node_count(lo.2, hi.2),
    );
    assert(0 <= a <= 1604 && 0 <= b <= 1604 && 0 <= c <= 1604);
    assert(a * b * c <= 4126796864) by (nonlinear_arith)
        requires
            0 <= a <= 1604,
            0 <= b <= 1604,
            0 <= c <= 1604,
    {
        assert(a * b <= 1604 * 1604);
        assert(a * b * c <= 1604 * 1604 * 1604);
    }
}

/// A model within 800 cells of the origin can be addressed on every machine.
pub proof fn law_small_models_fit(voxels: Seq<Voxel>)
    requires
        voxels.len() <= usize::MAX,
        within_reach(voxels, 800),
    ensures
        buckets_fit(voxels),
        model_fits(voxels),
{
    lemma_all_positions(voxels);
    lemma_model_bounds(voxels);
    lemma_model_positions(voxels);
    let dom = all_positions(voxels).dom();
    if dom != Set::<VoxelCoord>::empty() {
        assert forall|c: VoxelCoord| #[trigger] dom.contains(c) implies -800 <= c.0 <= 800 && -800
            <= c.1 <= 800 && -800 <= c.2 <= 800 by {
            assert(all_positions(voxels).contains_key(c));
            let i = all_positions(voxels)[c] as int;
            assert(coord_of(voxels[i]) == c);
        }
        lemma_small_set_fits(dom);
    }
    assert forall|k: (u32, u8)|
        #![trigger bucket_positions(voxels, k)]
        bucket_positions(voxels, k).dom() != Set::<VoxelCoord>::empty() implies lattice_fits(
        bucket_positions(voxels, k).dom(),
    ) by {
        let dom = bucket_positions(voxels, k).dom();
        lemma_bucket_bounds(voxels, k);
        lemma_bucket_positions(voxels, k);
        assert forall|c: VoxelCoord| #[trigger] dom.contains(c) implies -800 <= c.0 <= 800 && -800
            <= c.1 <= 800 && -800 <= c.2 <= 800 by {
            assert(bucket_positions(voxels, k).contains_key(c));
            let i = bucket_positions(voxels, k)[c] as int;
            assert(coord_of(voxels[i]) == c);
        }
        lemma_small_set_fits(dom);
    }
}

pub(crate) proof fn lemma_model_positions(voxels: Seq<Voxel>)
    requires
        voxels.len() <= usize::MAX,
    ensures
        forall|c: VoxelCoord| #[trigger]
            all_positions(voxels).contains_key(c) ==> all_positions(voxels)[c] < voxels.len()
                && coord_of(voxels[all_positions(voxels)[c] as int]) == c,
    decreases voxels.len(),
{
    if voxels.len() > 0 {
        let head = voxels.drop_last();
        lemma_model_positions(head);
        assert forall|c: VoxelCoord| #[trigger]
            all_positions(voxels).contains_key(c) implies all_positions(voxels)[c] < voxels.len()
            && coord_of(voxels[all_positions(voxels)[c] as int]) == c by {
            if c != coord_of(voxels.last()) {
                assert(all_positions(head).contains_key(c));
                let i = all_positions(head)[c] as int;
                assert(head[i] == voxels[i]);
            }
        }
    }
}

/// The surfaces that are there, in order.
pub open spec fn present(parts: Seq<Option<Surface>>) -> Seq<Surface>
    decreases parts.len(),
{
    if parts.len() == 0 {
        seq![]
    } else {
        let head = present(parts.drop_last());
        match parts.last() {
            Some(p) => head.push(p),
            None => head,
        }
    }
}

/// Marching cubes surface of a bucket, if it has one.
pub open spec fn marched_part(voxels: Seq<Voxel>, k: (u32, u8)) -> Option<Surface> {
    let cells = bucket_cells(voxels, k);
    if bucket_keys(voxels).contains(k) {
        Some(welded(surface_triangles(cells), material_of_rank(k.1 as int)))
    } else {
        None
    }
}

/// Dual contouring surface of a bucket within the model, if it has one.
pub open spec fn contoured_part(voxels: Seq<Voxel>, k: (u32, u8)) -> Option<Surface> {
    let cells = bucket_cells(voxels, k);
    if bucket_keys(voxels).contains(k) {
        Some(contoured(cells, model_cells(voxels), material_of_rank(k.1 as int)))
    } else {
        None
    }
}

/// Marching cubes surface of a model, its buckets taken in the given order.
pub open spec fn marched(voxels: Seq<Voxel>, order: Seq<(u32, u8)>) -> Surface {
    merged(present(Seq::new(order.len(), |i: int| marched_part(voxels, order[i]))))
}

/// Dual contouring surface of a model, its buckets taken in the given order.
pub open spec fn contoured_model(voxels: Seq<Voxel>, order: Seq<(u32, u8)>) -> Surface {
    merged(present(Seq::new(order.len(), |i: int| contoured_part(voxels, order[i]))))
}

/// An order of the buckets of a model: each key once.
pub open spec fn bucket_order(voxels: Seq<Voxel>, order: Seq<(u32, u8)>) -> bool {
    order.no_duplicates() && order.to_set() == bucket_keys(voxels)
}

} // verus!
