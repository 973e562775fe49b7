//! Marching cubes and dual contouring of a whole model.
//!
//! The buckets are walked in the order in which their hash map hands them out,
//! which is left open; for a given order the surface is fixed.

use vstd::prelude::*;

use crate::collections::{
    bucket_entries, bucket_map_get, bucket_map_keys, coord_map_insert, coord_map_keys,
    coord_map_new, entries, CoordMap,
};
use crate::smooth_mesh::buckets::{
    all_positions, bucket_cells, bucket_key, bucket_keys, bucket_order, bucket_positions,
    buckets_fit, contoured_model,
    contoured_part, coord_key, lemma_all_positions, lemma_bucket_bounds, lemma_bucket_in_model,
    lemma_bucket_positions, lemma_model_bounds, marched, marched_part, model_cells, model_fits,
    present, sort_into_buckets, Buckets,
};
use crate::smooth_mesh::contour::{contoured, dual_contour_bucket, law_contoured};
use crate::smooth_mesh::lattice::{lattice_addressable, lattice_fits};
use crate::smooth_mesh::marching::{law_welded, marching_cubes_bucket, surface_triangles, welded};
use crate::smooth_mesh::surface::{
    empty_surface, law_merged_well_formed, merge_mesh_buffers, merged, Surface, SurfaceMesh,
};
use crate::voxelle::{law_material_index_round_trip, material_of_rank, Voxel, VoxelCoord};

verus! {

/// The surfaces that a list of meshes describes.
pub open spec fn views(parts: Seq<SurfaceMesh>) -> Seq<Surface> {
    Seq::new(parts.len(), |i: int| parts[i]@)
}

/// A list of surfaces and one more, if it is there.
pub open spec fn with_part(parts: Seq<Surface>, part: Option<Surface>) -> Seq<Surface> {
    match part {
        Some(p) => parts.push(p),
        None => parts,
    }
}

/// Every mesh of a list describes a well-formed surface.
pub open spec fn all_well_formed(parts: Seq<SurfaceMesh>) -> bool {
    forall|i: int| 0 <= i < parts.len() ==> (#[trigger] parts[i])@.well_formed()
}

/// `on_progress` was told of each of `total` buckets that it was done.
pub open spec fn all_told<F: Fn(usize, usize)>(on_progress: F, total: nat) -> bool {
    forall|done: usize|
        1 <= done <= total ==> #[trigger] call_ensures(on_progress, (done, total as usize), ())
}

/// `should_cancel` was asked, unless there was nothing to do, and wanted to go on.
pub open spec fn gone_on<C: Fn() -> bool>(should_cancel: C, work: nat) -> bool {
    work > 0 ==> call_ensures(should_cancel, (), false)
}

/// For each filled cell of the model, the position of its voxel.
pub fn voxel_map(voxels: &[Voxel]) -> (m: CoordMap)
    ensures
        entries(m) == all_positions(voxels@),
{
    let mut m = coord_map_new();
    let mut i: usize = 0;
    assert(voxels@.take(0) =~= Seq::<Voxel>::empty());
    while i < voxels.len()
        invariant
            0 <= i <= voxels@.len(),
            entries(m) == all_positions(voxels@.take(i as int)),
        decreases voxels@.len() - i,
    {
        let v = voxels[i];
        coord_map_insert(&mut m, coord_key(v.x, v.y, v.z), i);
        assert(voxels@.take(i as int + 1).drop_last() =~= voxels@.take(i as int));
        i += 1;
    }
    assert(voxels@.take(i as int) =~= voxels@);
    m
}

/// Whether the lattice of the model can be addressed, as dual contouring needs.
pub fn model_addressable(voxels: &[Voxel]) -> (r: bool)
    ensures
        r == model_fits(voxels@),
{
    let cells = coord_map_keys(&voxel_map(voxels));
    proof {
        if cells@.len() == 0 {
            assert(all_positions(voxels@).dom() =~= Set::<VoxelCoord>::empty());
        } else {
            assert(all_positions(voxels@).dom().contains(cells@[0]));
        }
    }
    cells.len() == 0 || lattice_addressable(cells.as_slice())
}

/// Whether the lattice of every bucket of the model can be addressed, as marching
/// cubes needs.
pub fn buckets_addressable(voxels: &[Voxel]) -> (r: bool)
    ensures
        r == buckets_fit(voxels@),
{
    let n: usize = voxels.len();
    let buckets = sort_into_buckets(voxels);
    let order = bucket_map_keys(&buckets.index);
    let mut i: usize = 0;
    while i < order.len()
        invariant
            0 <= i <= order@.len(),
            buckets.sorts(voxels@),
            order@.to_set() == bucket_entries(buckets.index).dom(),
            forall|j: int|
                0 <= j < i ==> lattice_fits(
                    bucket_positions(voxels@, #[trigger] order@[j]).dom(),
                ),
            n == voxels@.len(),
        decreases order@.len() - i,
    {
        let key: (u32, u8) = order[i];
        proof {
            assert(order@.to_set().contains(key));
            lemma_bucket_positions(voxels@, key);
        }
        if let Some(slot) = bucket_map_get(&buckets.index, &key) {
            let cells = coord_map_keys(&buckets.maps[slot]);
            proof {
                assert(bucket_entries(buckets.index).contains_key(key));
                if cells@.len() == 0 {
                    assert(bucket_positions(voxels@, key).dom() =~= Set::<VoxelCoord>::empty());
                }
            }
            if !lattice_addressable(cells.as_slice()) {
                return false;
            }
        }
        i += 1;
    }
    proof {
        assert forall|k: (u32, u8)|
            #![trigger bucket_positions(voxels@, k)]
            bucket_positions(voxels@, k).dom() != Set::<VoxelCoord>::empty() implies lattice_fits(
            bucket_positions(voxels@, k).dom(),
        ) by {
            lemma_bucket_positions(voxels@, k);
            assert(order@.to_set().contains(k));
            let j = choose|j: int| 0 <= j < order@.len() && order@[j] == k;
            assert(lattice_fits(bucket_positions(voxels@, order@[j]).dom()));
        }
    }
    true
}

/// Marching cubes surface of one bucket of the model, if it has one.
fn marching_part(
    voxels: &[Voxel],
    buckets: &Buckets,
    key: (u32, u8),
) -> (r: Option<SurfaceMesh>)
    requires
        buckets.sorts(voxels@),
        buckets_fit(voxels@),
    ensures
        r is None <==> marched_part(voxels@, key) is None,
        r matches Some(m) ==> marched_part(voxels@, key) == Some(m@) && m@.well_formed(),
{
    let n: usize = voxels.len();
    proof {
        assert(n == voxels@.len());
        lemma_bucket_positions(voxels@, key);
        lemma_bucket_bounds(voxels@, key);
    }
    match bucket_map_get(&buckets.index, &key) {
        Some(slot) => {
            let map = &buckets.maps[slot];
            proof {
                assert(bucket_entries(buckets.index).contains_key(key));
                assert(entries(*map) == bucket_positions(voxels@, key));
                assert forall|c: VoxelCoord| #[trigger]
                    bucket_positions(voxels@, key).contains_key(c) implies bucket_positions(
                    voxels@,
                    key,
                )[c] < voxels@.len() by {}
            }
            let mesh = marching_cubes_bucket(map, voxels);
            proof {
                if mesh is Some {
                    let m = mesh->0;
                    let c = choose|c: VoxelCoord| #[trigger]
                        entries(*map).contains_key(c) && m@ == welded(
                            surface_triangles(bucket_cells(voxels@, key)),
                            voxels@[entries(*map)[c] as int].material,
                        );
                    let v = voxels@[entries(*map)[c] as int];
                    law_material_index_round_trip(v.material);
                    let material = material_of_rank(key.1 as int);
                    assert(v.material == material);
                    law_welded(surface_triangles(bucket_cells(voxels@, key)), material);
                }
            }
            mesh
        },
        None => {
            assert(!bucket_entries(buckets.index).dom().contains(key));
            None
        },
    }
}

/// The surface of all buckets, once it is known whether to stop after the last: the
/// surfaces of the buckets as one, or nothing.
pub fn finish(parts: Vec<SurfaceMesh>, cancel: bool) -> (r: SurfaceMesh)
    requires
        all_well_formed(parts@),
    ensures
        r@ == (if cancel {
            empty_surface()
        } else {
            merged(views(parts@))
        }),
{
    if cancel {
        return SurfaceMesh::empty();
    }
    merge_mesh_buffers(parts)
}

/// One bucket of the model, once it is known whether to stop: its marching cubes surface,
/// if it has one, joins the others, unless the work is to stop. The result says
/// whether the work goes on.
pub fn marching_step(
    voxels: &[Voxel],
    buckets: &Buckets,
    key: (u32, u8),
    cancel: bool,
    parts: &mut Vec<SurfaceMesh>,
) -> (go_on: bool)
    requires
        buckets.sorts(voxels@),
        buckets_fit(voxels@),
    ensures
        go_on == !cancel,
        cancel ==> final(parts)@ == old(parts)@,
        !cancel ==> views(final(parts)@) == with_part(
            views(old(parts)@),
            marched_part(voxels@, key),
        ),
        all_well_formed(old(parts)@) ==> all_well_formed(final(parts)@),
{
    if cancel {
        return false;
    }
    if let Some(mesh) = marching_part(voxels, buckets, key) {
        parts.push(mesh);
        assert(views(parts@) =~= views(old(parts)@).push(mesh@));
    }
    true
}

/// Marching cubes surfaces of the buckets of the model, merged in the given order.
fn marching_buckets<F: Fn(usize, usize), C: Fn() -> bool>(
    voxels: &[Voxel],
    buckets: &Buckets,
    order: &Vec<(u32, u8)>,
    on_progress: F,
    should_cancel: C,
) -> (r: SurfaceMesh)
    requires
        buckets.sorts(voxels@),
        buckets_fit(voxels@),
        forall|done: usize, total: usize| call_requires(on_progress, (done, total)),
        call_requires(should_cancel, ()),
    ensures
        (r@ == marched(voxels@, order@) && all_told(on_progress, order@.len()) && gone_on(
            should_cancel,
            order@.len(),
        )) || (r@ == empty_surface() && order@.len() > 0 && call_ensures(
            should_cancel,
            (),
            true,
        )),
{
    let mut parts: Vec<SurfaceMesh> = Vec::new();
    let total: usize = order.len();
    let ghost all = Seq::new(order@.len(), |i: int| marched_part(voxels@, order@[i]));
    let mut i: usize = 0;
    assert(all.take(0) =~= Seq::<Option<Surface>>::empty());
    assert(views(parts@) =~= present(all.take(0)));
    while i < order.len()
        invariant
            0 <= i <= order@.len(),
            total == order@.len(),
            buckets.sorts(voxels@),
            buckets_fit(voxels@),
            forall|done: usize, total: usize| call_requires(on_progress, (done, total)),
            call_requires(should_cancel, ()),
            all == Seq::new(order@.len(), |i: int| marched_part(voxels@, order@[i])),
            views(parts@) == present(all.take(i as int)),
            all_well_formed(parts@),
            forall|done: usize|
                1 <= done <= i ==> #[trigger] call_ensures(on_progress, (done, total), ()),
        decreases order@.len() - i,
    {
        let key: (u32, u8) = order[i];
        let cancel = should_cancel();
        if !marching_step(voxels, buckets, key, cancel, &mut parts) {
            return SurfaceMesh::empty();
        }
        proof {
            assert(all.take(i as int + 1).drop_last() =~= all.take(i as int));
            assert(all.take(i as int + 1).last() == marched_part(voxels@, key));
        }
        i += 1;
        on_progress(i, total);
    }
    assert(all.take(i as int) =~= all);
    let cancel = total > 0 && should_cancel();
    finish(parts, cancel)
}

/// Marching cubes surface of a model, its buckets taken in the given order. After each
/// bucket `on_progress` is told how many of them are done. Before the first bucket and
/// after each, `should_cancel` is asked; where it wants to stop, the result is empty.
pub fn build_marching_cubes_in_order<F: Fn(usize, usize), C: Fn() -> bool>(
    voxels: &[Voxel],
    order: &Vec<(u32, u8)>,
    on_progress: F,
    should_cancel: C,
) -> (r: SurfaceMesh)
    requires
        buckets_fit(voxels@),
        forall|done: usize, total: usize| call_requires(on_progress, (done, total)),
        call_requires(should_cancel, ()),
    ensures
        (r@ == marched(voxels@, order@) && all_told(on_progress, order@.len()) && gone_on(
            should_cancel,
            order@.len(),
        )) || (r@ == empty_surface() && order@.len() > 0 && call_ensures(
            should_cancel,
            (),
            true,
        )),
{
    let buckets = sort_into_buckets(voxels);
    marching_buckets(voxels, &buckets, order, on_progress, should_cancel)
}

/// Marching cubes surface of a model, bucket by bucket in some order. After each
/// bucket `on_progress` is told how many of them are done. Before the first bucket and
/// after each, `should_cancel` is asked; where it wants to stop, the result is empty.
pub fn build_marching_cubes_merged_cancellable<F: Fn(usize, usize), C: Fn() -> bool>(
    voxels: &[Voxel],
    on_progress: F,
    should_cancel: C,
) -> (r: SurfaceMesh)
    requires
        buckets_fit(voxels@),
        forall|done: usize, total: usize| call_requires(on_progress, (done, total)),
        call_requires(should_cancel, ()),
    ensures
        (exists|order: Seq<(u32, u8)>| #[trigger]
            bucket_order(voxels@, order) && r@ == marched(voxels@, order) && all_told(
                on_progress,
                order.len(),
            ) && gone_on(should_cancel, voxels@.len())) || (r@ == empty_surface() && voxels@.len()
            > 0 && call_ensures(should_cancel, (), true)),
{
    let buckets = sort_into_buckets(voxels);
    let order = bucket_map_keys(&buckets.index);
    assert(bucket_order(voxels@, order@));
    proof {
        if voxels@.len() > 0 {
            assert(bucket_keys(voxels@).contains(bucket_key(voxels@[0])));
            assert(order@.to_set().contains(bucket_key(voxels@[0])));
        }
    }
    marching_buckets(voxels, &buckets, &order, on_progress, should_cancel)
}

/// Marching cubes surface of a model, bucket by bucket in some order. After each
/// bucket `on_progress` is told how many of them are done.
pub fn build_marching_cubes_merged_with_progress<F: Fn(usize, usize)>(
    voxels: &[Voxel],
    on_progress: F,
) -> (r: SurfaceMesh)
    requires
        buckets_fit(voxels@),
        forall|done: usize, total: usize| call_requires(on_progress, (done, total)),
    ensures
        exists|order: Seq<(u32, u8)>| #[trigger]
            bucket_order(voxels@, order) && r@ == marched(voxels@, order) && all_told(
                on_progress,
                order.len(),
            ),
{
    let never = || -> (b: bool)
        ensures
            !b,
        { false };
    build_marching_cubes_merged_cancellable(voxels, on_progress, never)
}

/// Marching cubes surface of a model, bucket by bucket in some order.
pub fn build_marching_cubes_merged(voxels: &[Voxel]) -> (r: SurfaceMesh)
    requires
        buckets_fit(voxels@),
    ensures
        exists|order: Seq<(u32, u8)>| #[trigger]
            bucket_order(voxels@, order) && r@ == marched(voxels@, order),
{
    let ignore = |done: usize, total: usize| {};
    build_marching_cubes_merged_with_progress(voxels, ignore)
}

/// Dual contouring surface of one bucket of the model, if it has one.
fn contour_part(
    voxels: &[Voxel],
    buckets: &Buckets,
    full: &CoordMap,
    key: (u32, u8),
) -> (r: Option<SurfaceMesh>)
    requires
        buckets.sorts(voxels@),
        entries(*full) == all_positions(voxels@),
        model_fits(voxels@),
    ensures
        r is None <==> contoured_part(voxels@, key) is None,
        r matches Some(m) ==> contoured_part(voxels@, key) == Some(m@) && m@.well_formed(),
{
    let n: usize = voxels.len();
    proof {
        assert(n == voxels@.len());
        lemma_bucket_positions(voxels@, key);
        lemma_bucket_bounds(voxels@, key);
        lemma_bucket_in_model(voxels@, key);
        lemma_all_positions(voxels@);
        lemma_model_bounds(voxels@);
    }
    match bucket_map_get(&buckets.index, &key) {
        Some(slot) => {
            let map = &buckets.maps[slot];
            proof {
                assert(bucket_entries(buckets.index).contains_key(key));
                assert(entries(*map) == bucket_positions(voxels@, key));
                assert forall|c: VoxelCoord| #[trigger]
                    bucket_positions(voxels@, key).contains_key(c) implies bucket_positions(
                    voxels@,
                    key,
                )[c] < voxels@.len() by {}
            }
            let mesh = dual_contour_bucket(map, full, voxels);
            proof {
                if mesh is Some {
                    let m = mesh->0;
                    let c = choose|c: VoxelCoord| #[trigger]
                        entries(*map).contains_key(c) && m@ == contoured(
                            bucket_cells(voxels@, key),
                            model_cells(voxels@),
                            voxels@[entries(*map)[c] as int].material,
                        );
                    let v = voxels@[entries(*map)[c] as int];
                    law_material_index_round_trip(v.material);
                    let material = material_of_rank(key.1 as int);
                    assert(v.material == material);
                    assert(model_cells(voxels@).dom() =~= all_positions(voxels@).dom());
                    law_contoured(bucket_cells(voxels@, key), model_cells(voxels@), material);
                }
            }
            mesh
        },
        None => {
            assert(!bucket_entries(buckets.index).dom().contains(key));
            None
        },
    }
}

/// One bucket of the model, once it is known whether to stop: its dual contouring surface,
/// if it has one, joins the others, unless the work is to stop. The result says
/// whether the work goes on.
pub fn contour_step(
    voxels: &[Voxel],
    buckets: &Buckets,
    full: &CoordMap,
    key: (u32, u8),
    cancel: bool,
    parts: &mut Vec<SurfaceMesh>,
) -> (go_on: bool)
    requires
        buckets.sorts(voxels@),
        entries(*full) == all_positions(voxels@),
        model_fits(voxels@),
    ensures
        go_on == !cancel,
        cancel ==> final(parts)@ == old(parts)@,
        !cancel ==> views(final(parts)@) == with_part(
            views(old(parts)@),
            contoured_part(voxels@, key),
        ),
        all_well_formed(old(parts)@) ==> all_well_formed(final(parts)@),
{
    if cancel {
        return false;
    }
    if let Some(mesh) = contour_part(voxels, buckets, full, key) {
        parts.push(mesh);
        assert(views(parts@) =~= views(old(parts)@).push(mesh@));
    }
    true
}

/// Dual contouring surfaces of the buckets of the model, merged in the given order.
fn contour_buckets<F: Fn(usize, usize), C: Fn() -> bool>(
    voxels: &[Voxel],
    buckets: &Buckets,
    full: &CoordMap,
    order: &Vec<(u32, u8)>,
    on_progress: F,
    should_cancel: C,
) -> (r: SurfaceMesh)
    requires
        buckets.sorts(voxels@),
        entries(*full) == all_positions(voxels@),
        model_fits(voxels@),
        forall|done: usize, total: usize| call_requires(on_progress, (done, total)),
        call_requires(should_cancel, ()),
    ensures
        (r@ == contoured_model(voxels@, order@) && all_told(on_progress, order@.len()) && gone_on(
            should_cancel,
            order@.len(),
        )) || (r@ == empty_surface() && order@.len() > 0 && call_ensures(
            should_cancel,
            (),
            true,
        )),
{
    let mut parts: Vec<SurfaceMesh> = Vec::new();
    let total: usize = order.len();
    let ghost all = Seq::new(order@.len(), |i: int| contoured_part(voxels@, order@[i]));
    let mut i: usize = 0;
    assert(all.take(0) =~= Seq::<Option<Surface>>::empty());
    assert(views(parts@) =~= present(all.take(0)));
    while i < order.len()
        invariant
            0 <= i <= order@.len(),
            total == order@.len(),
            buckets.sorts(voxels@),
            entries(*full) == all_positions(voxels@),
            model_fits(voxels@),
            forall|done: usize, total: usize| call_requires(on_progress, (done, total)),
            call_requires(should_cancel, ()),
            all == Seq::new(order@.len(), |i: int| contoured_part(voxels@, order@[i])),
            views(parts@) == present(all.take(i as int)),
            all_well_formed(parts@),
            forall|done: usize|
                1 <= done <= i ==> #[trigger] call_ensures(on_progress, (done, total), ()),
        decreases order@.len() - i,
    {
        let key: (u32, u8) = order[i];
        let cancel = should_cancel();
        if !contour_step(voxels, buckets, full, key, cancel, &mut parts) {
            return SurfaceMesh::empty();
        }
        proof {
            assert(all.take(i as int + 1).drop_last() =~= all.take(i as int));
            assert(all.take(i as int + 1).last() == contoured_part(voxels@, key));
        }
        i += 1;
        on_progress(i, total);
    }
    assert(all.take(i as int) =~= all);
    let cancel = total > 0 && should_cancel();
    finish(parts, cancel)
}

/// Dual contouring surface of a model, its buckets taken in the given order. After each
/// bucket `on_progress` is told how many of them are done. Before the first bucket and
/// after each, `should_cancel` is asked; where it wants to stop, the result is empty.
pub fn build_dual_contour_in_order<F: Fn(usize, usize), C: Fn() -> bool>(
    voxels: &[Voxel],
    order: &Vec<(u32, u8)>,
    on_progress: F,
    should_cancel: C,
) -> (r: SurfaceMesh)
    requires
        model_fits(voxels@),
        forall|done: usize, total: usize| call_requires(on_progress, (done, total)),
        call_requires(should_cancel, ()),
    ensures
        (r@ == contoured_model(voxels@, order@) && all_told(on_progress, order@.len()) && gone_on(
            should_cancel,
            order@.len(),
        )) || (r@ == empty_surface() && order@.len() > 0 && call_ensures(
            should_cancel,
            (),
            true,
        )),
{
    let buckets = sort_into_buckets(voxels);
    let full = voxel_map(voxels);
    contour_buckets(voxels, &buckets, &full, order, on_progress, should_cancel)
}

/// Dual contouring surface of a model, bucket by bucket in some order. After each
/// bucket `on_progress` is told how many of them are done. Before the first bucket and
/// after each, `should_cancel` is asked; where it wants to stop, the result is empty.
pub fn build_dual_contour_merged_cancellable<F: Fn(usize, usize), C: Fn() -> bool>(
    voxels: &[Voxel],
    on_progress: F,
    should_cancel: C,
) -> (r: SurfaceMesh)
    requires
        model_fits(voxels@),
        forall|done: usize, total: usize| call_requires(on_progress, (done, total)),
        call_requires(should_cancel, ()),
    ensures
        (exists|order: Seq<(u32, u8)>| #[trigger]
            bucket_order(voxels@, order) && r@ == contoured_model(voxels@, order) && all_told(
                on_progress,
                order.len(),
            ) && gone_on(should_cancel, voxels@.len())) || (r@ == empty_surface() && voxels@.len()
            > 0 && call_ensures(should_cancel, (), true)),
{
    let buckets = sort_into_buckets(voxels);
    let full = voxel_map(voxels);
    let order = bucket_map_keys(&buckets.index);
    assert(bucket_order(voxels@, order@));
    proof {
        if voxels@.len() > 0 {
            assert(bucket_keys(voxels@).contains(bucket_key(voxels@[0])));
            assert(order@.to_set().contains(bucket_key(voxels@[0])));
        }
    }
    contour_buckets(voxels, &buckets, &full, &order, on_progress, should_cancel)
}

/// Dual contouring surface of a model, bucket by bucket in some order. After each
/// bucket `on_progress` is told how many of them are done.
pub fn build_dual_contour_merged_with_progress<F: Fn(usize, usize)>(
    voxels: &[Voxel],
    on_progress: F,
) -> (r: SurfaceMesh)
    requires
        model_fits(voxels@),
        forall|done: usize, total: usize| call_requires(on_progress, (done, total)),
    ensures
        exists|order: Seq<(u32, u8)>| #[trigger]
            bucket_order(voxels@, order) && r@ == contoured_model(voxels@, order) && all_told(
                on_progress,
                order.len(),
            ),
{
    let never = || -> (b: bool)
        ensures
            !b,
        { false };
    build_dual_contour_merged_cancellable(voxels, on_progress, never)
}

/// Dual contouring surface of a model, bucket by bucket in some order.
pub fn build_dual_contour_merged(voxels: &[Voxel]) -> (r: SurfaceMesh)
    requires
        model_fits(voxels@),
    ensures
        exists|order: Seq<(u32, u8)>| #[trigger]
            bucket_order(voxels@, order) && r@ == contoured_model(voxels@, order),
{
    let ignore = |done: usize, total: usize| {};
    build_dual_contour_merged_with_progress(voxels, ignore)
}

/// Whatever order the buckets come in, the marching cubes surface of a model is well formed.
pub proof fn law_marched_well_formed(voxels: Seq<Voxel>, order: Seq<(u32, u8)>)
    ensures
        marched(voxels, order).well_formed(),
{
    let parts = Seq::new(order.len(), |i: int| marched_part(voxels, order[i]));
    assert forall|i: int| 0 <= i < parts.len() implies ((#[trigger] parts[i]) matches Some(p) ==> p.well_formed()) by {
        law_welded(
            surface_triangles(bucket_cells(voxels, order[i])),
            material_of_rank(order[i].1 as int),
        );
    }
    lemma_present_well_formed(parts);
    law_merged_well_formed(present(parts));
}

proof fn lemma_present_well_formed(parts: Seq<Option<Surface>>)
    requires
        forall|i: int| 0 <= i < parts.len() ==> ((#[trigger] parts[i]) matches Some(p) ==> p.well_formed()),
    ensures
        forall|i: int| 0 <= i < present(parts).len() ==> (#[trigger] present(parts)[i]).well_formed(),
    decreases parts.len(),
{
    if parts.len() > 0 {
        let head = parts.drop_last();
        assert forall|i: int| 0 <= i < head.len() implies ((#[trigger] head[i]) matches Some(p) ==> p.well_formed()) by {
            assert(head[i] == parts[i]);
        }
        lemma_present_well_formed(head);
        assert(parts[parts.len() - 1] == parts.last());
        assert forall|i: int| 0 <= i < present(parts).len() implies (#[trigger] present(parts)[i]).well_formed() by {
            if i < present(head).len() {
                assert(present(parts)[i] == present(head)[i]);
            }
        }
    }
}

/// Whatever order the buckets come in, the dual contouring surface of a model is well formed.
pub proof fn law_contoured_model_well_formed(voxels: Seq<Voxel>, order: Seq<(u32, u8)>)
    requires
        voxels.len() <= usize::MAX,
        model_fits(voxels),
    ensures
        contoured_model(voxels, order).well_formed(),
{
    let parts = Seq::new(order.len(), |i: int| contoured_part(voxels, order[i]));
    lemma_model_bounds(voxels);
    assert(model_cells(voxels).dom() =~= all_positions(voxels).dom());
    assert forall|i: int| 0 <= i < parts.len() implies ((#[trigger] parts[i]) matches Some(p) ==> p.well_formed()) by {
        if parts[i] is Some {
            lemma_bucket_positions(voxels, order[i]);
            lemma_bucket_in_model(voxels, order[i]);
            assert(all_positions(voxels).dom() != Set::<VoxelCoord>::empty()) by {
                assert(bucket_positions(voxels, order[i]).dom() != Set::<VoxelCoord>::empty());
                if all_positions(voxels).dom() == Set::<VoxelCoord>::empty() {
                    assert(bucket_positions(voxels, order[i]).dom() =~= Set::<VoxelCoord>::empty());
                }
            }
            law_contoured(
                bucket_cells(voxels, order[i]),
                model_cells(voxels),
                material_of_rank(order[i].1 as int),
            );
        }
    }
    lemma_present_well_formed(parts);
    law_merged_well_formed(present(parts));
}

} // verus!
