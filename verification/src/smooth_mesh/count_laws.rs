//! How many vertices and triangles the surfaces of a whole model have.

use vstd::prelude::*;

use crate::smooth_mesh::buckets::{
    all_positions, bucket_cells, bucket_key, bucket_keys, bucket_order, bucket_positions,
    contoured_model, contoured_part, lemma_all_positions, lemma_bucket_positions,
    lemma_model_positions, marched, marched_part, model_cells, present,
};
use crate::smooth_mesh::contour::{
    active, axis_quads, edge_quad, lattice_frame, line_quads, plane_cells, row_cells, sheet_quads, surface_cells,
    surface_quads, volume_cells,
};
use crate::smooth_mesh::lattice::{node_value, Cells};
use crate::smooth_mesh::surface::{empty_surface, law_merged_counts, merged, Surface};
use crate::voxelle::{coord_of, material_rank, MaterialId, Voxel, VoxelCoord};

verus! {

/// Vertices and triangle corners of a surface.
pub open spec fn counts(s: Surface) -> (nat, nat) {
    (s.vertices.len(), s.indices.len())
}

/// Vertices and triangle corners of a surface that may not be there.
spec fn part_counts(p: Option<Surface>) -> (nat, nat) {
    match p {
        Some(s) => counts(s),
        None => (0, 0),
    }
}

/// Two pairs of counts together.
pub open spec fn with_counts(a: (nat, nat), b: (nat, nat)) -> (nat, nat) {
    (a.0 + b.0, a.1 + b.1)
}

proof fn lemma_merged_parts(parts: Seq<Option<Surface>>)
    requires
        parts.len() > 0,
    ensures
        counts(merged(present(parts))) == with_counts(
            counts(merged(present(parts.drop_last()))),
            part_counts(parts.last()),
        ),
{
    let head = present(parts.drop_last());
    if parts.last() is Some {
        law_merged_counts(head, parts.last()->0);
    }
}

/// The surface of a model and one bucket more has as many vertices and triangles more
/// as the bucket has.
proof fn lemma_marched_last(voxels: Seq<Voxel>, order: Seq<(u32, u8)>)
    requires
        order.len() > 0,
    ensures
        counts(marched(voxels, order)) == with_counts(
            counts(marched(voxels, order.drop_last())),
            part_counts(marched_part(voxels, order.last())),
        ),
{
    let parts = Seq::new(order.len(), |i: int| marched_part(voxels, order[i]));
    let head = order.drop_last();
    assert(parts.drop_last() =~= Seq::new(head.len(), |i: int| marched_part(voxels, head[i])));
    lemma_merged_parts(parts);
}

proof fn lemma_contoured_last(voxels: Seq<Voxel>, order: Seq<(u32, u8)>)
    requires
        order.len() > 0,
    ensures
        counts(contoured_model(voxels, order)) == with_counts(
            counts(contoured_model(voxels, order.drop_last())),
            part_counts(contoured_part(voxels, order.last())),
        ),
{
    let parts = Seq::new(order.len(), |i: int| contoured_part(voxels, order[i]));
    let head = order.drop_last();
    assert(parts.drop_last() =~= Seq::new(head.len(), |i: int| contoured_part(voxels, head[i])));
    lemma_merged_parts(parts);
}

/// The voxels of one colour and material, in order.
pub open spec fn group(voxels: Seq<Voxel>, k: (u32, u8)) -> Seq<Voxel>
    decreases voxels.len(),
{
    if voxels.len() == 0 {
        seq![]
    } else {
        let head = group(voxels.drop_last(), k);
        if bucket_key(voxels.last()) == k {
            head.push(voxels.last())
        } else {
            head
        }
    }
}

proof fn lemma_group(voxels: Seq<Voxel>, k: (u32, u8))
    ensures
        group(voxels, k).len() <= voxels.len(),
        forall|v: Voxel| #[trigger]
            group(voxels, k).contains(v) <==> voxels.contains(v) && bucket_key(v) == k,
    decreases voxels.len(),
{
    if voxels.len() > 0 {
        let head = voxels.drop_last();
        lemma_group(head, k);
        assert forall|v: Voxel| #[trigger] group(voxels, k).contains(v) <==> voxels.contains(v)
            && bucket_key(v) == k by {
            assert(voxels =~= head.push(voxels.last()));
            lemma_push_contains(head, voxels.last(), v);
            lemma_push_contains(group(head, k), voxels.last(), v);
            assert(group(head, k).contains(v) <==> head.contains(v) && bucket_key(v) == k);
        }
    }
}

proof fn lemma_push_contains(s: Seq<Voxel>, v: Voxel, w: Voxel)
    ensures
        s.push(v).contains(w) <==> s.contains(w) || v == w,
{
    if s.contains(w) {
        let i = choose|i: int| 0 <= i < s.len() && s[i] == w;
        assert(s.push(v)[i] == w);
    }
    assert(s.push(v)[s.len() as int] == v);
    if s.push(v).contains(w) && v != w {
        let i = choose|i: int| 0 <= i < s.push(v).len() && s.push(v)[i] == w;
        assert(s[i] == w);
    }
}

/// The same voxels are of a colour and material in both models.
spec fn same_voxels(a: Seq<Voxel>, b: Seq<Voxel>, k: (u32, u8)) -> bool {
    forall|v: Voxel| bucket_key(v) == k ==> (#[trigger] a.contains(v) <==> b.contains(v))
}

/// A bucket's surface depends on the voxels of the bucket alone, not on their order
/// or on how often they occur.
proof fn lemma_bucket_of_same(a: Seq<Voxel>, b: Seq<Voxel>, k: (u32, u8))
    requires
        a.len() <= usize::MAX,
        b.len() <= usize::MAX,
        same_voxels(a, b, k),
    ensures
        bucket_keys(a).contains(k) == bucket_keys(b).contains(k),
        bucket_cells(a, k) == bucket_cells(b, k),
        marched_part(a, k) == marched_part(b, k),
{
    lemma_bucket_positions(a, k);
    lemma_bucket_positions(b, k);
    lemma_bucket_within(a, b, k);
    lemma_bucket_within(b, a, k);
    assert(bucket_cells(a, k) =~= bucket_cells(b, k));
}

proof fn lemma_bucket_within(a: Seq<Voxel>, b: Seq<Voxel>, k: (u32, u8))
    requires
        a.len() <= usize::MAX,
        b.len() <= usize::MAX,
        same_voxels(a, b, k),
    ensures
        bucket_keys(a).contains(k) ==> bucket_keys(b).contains(k),
        forall|c: VoxelCoord| #[trigger]
            bucket_cells(a, k).contains_key(c) ==> bucket_cells(b, k).contains_key(c) && bucket_cells(
                a,
                k,
            )[c] == k.0 && bucket_cells(b, k)[c] == k.0,
{
    lemma_bucket_positions(a, k);
    lemma_bucket_positions(b, k);
    if bucket_keys(a).contains(k) {
        let i = choose|i: int| 0 <= i < a.len() && bucket_key(#[trigger] a[i]) == k;
        assert(a.contains(a[i]));
        assert(b.contains(a[i]));
        let j = choose|j: int| 0 <= j < b.len() && b[j] == a[i];
        assert(bucket_key(b[j]) == k);
    }
    assert forall|c: VoxelCoord| #[trigger] bucket_cells(a, k).contains_key(c) implies bucket_cells(
        b,
        k,
    ).contains_key(c) && bucket_cells(a, k)[c] == k.0 && bucket_cells(b, k)[c] == k.0 by {
        assert(bucket_positions(a, k).contains_key(c));
        let i = bucket_positions(a, k)[c] as int;
        assert(a.contains(a[i]));
        assert(b.contains(a[i]));
        let j = choose|j: int| 0 <= j < b.len() && b[j] == a[i];
        assert(bucket_key(b[j]) == k);
        assert(bucket_positions(b, k).contains_key(coord_of(b[j])));
        let l = bucket_positions(b, k)[c] as int;
        assert(bucket_key(b[l]) == k);
    }
}

/// Vertices and triangle corners of the surfaces that the colour and material groups
/// of a model have on their own, together.
pub open spec fn group_counts(voxels: Seq<Voxel>, order: Seq<(u32, u8)>) -> (nat, nat)
    decreases order.len(),
{
    if order.len() == 0 {
        (0, 0)
    } else {
        let k = order.last();
        with_counts(
            group_counts(voxels, order.drop_last()),
            counts(marched(group(voxels, k), seq![k])),
        )
    }
}

/// The marching cubes surface of a model has as many vertices and triangles as the
/// surfaces of its colour and material groups together, in whatever order.
pub proof fn law_marched_counts_add_up(voxels: Seq<Voxel>, order: Seq<(u32, u8)>)
    requires
        voxels.len() <= usize::MAX,
    ensures
        counts(marched(voxels, order)) == group_counts(voxels, order),
    decreases order.len(),
{
    if order.len() == 0 {
        let parts = Seq::new(order.len(), |i: int| marched_part(voxels, order[i]));
        assert(present(parts) =~= Seq::<Surface>::empty());
    } else {
        let k = order.last();
        let own = group(voxels, k);
        law_marched_counts_add_up(voxels, order.drop_last());
        lemma_marched_last(voxels, order);
        lemma_group(voxels, k);
        assert(same_voxels(own, voxels, k));
        lemma_bucket_of_same(own, voxels, k);
        lemma_marched_last(own, seq![k]);
        let none = seq![k].drop_last();
        let parts = Seq::new(none.len(), |i: int| marched_part(own, none[i]));
        assert(present(parts) =~= Seq::<Surface>::empty());
    }
}

/// A model without voxels has neither vertices nor triangles.
pub proof fn law_no_voxels_no_surface(order: Seq<(u32, u8)>)
    requires
        bucket_order(Seq::<Voxel>::empty(), order),
    ensures
        marched(Seq::<Voxel>::empty(), order) == empty_surface(),
        contoured_model(Seq::<Voxel>::empty(), order) == empty_surface(),
{
    let none = Seq::<Voxel>::empty();
    if order.len() > 0 {
        assert(order.to_set().contains(order[0]));
        assert(bucket_keys(none).contains(order[0]));
    }
    let a = Seq::new(order.len(), |i: int| marched_part(none, order[i]));
    let b = Seq::new(order.len(), |i: int| contoured_part(none, order[i]));
    assert(present(a) =~= Seq::<Surface>::empty());
    assert(present(b) =~= Seq::<Surface>::empty());
}

/// A group is the model of its own voxels: one bucket, the group's.
pub proof fn law_group_is_one_bucket(voxels: Seq<Voxel>, k: (u32, u8))
    requires
        bucket_keys(voxels).contains(k),
    ensures
        bucket_order(group(voxels, k), seq![k]),
{
    let own = group(voxels, k);
    lemma_group(voxels, k);
    let i = choose|i: int| 0 <= i < voxels.len() && bucket_key(#[trigger] voxels[i]) == k;
    assert(voxels.contains(voxels[i]));
    assert(own.contains(voxels[i]));
    let j = choose|j: int| 0 <= j < own.len() && own[j] == voxels[i];
    assert(bucket_key(own[j]) == k);
    assert forall|l: (u32, u8)| #[trigger] bucket_keys(own).contains(l) implies l == k by {
        let m = choose|m: int| 0 <= m < own.len() && bucket_key(#[trigger] own[m]) == l;
        assert(own.contains(own[m]));
    }
    assert(seq![k].to_set() =~= bucket_keys(own)) by {
        assert(seq![k][0] == k);
    }
}

/// A voxel that is there once more changes nothing in the marching cubes surface.
pub proof fn law_marched_ignores_repeats(voxels: Seq<Voxel>, v: Voxel, order: Seq<(u32, u8)>)
    requires
        voxels.len() < usize::MAX,
        voxels.contains(v),
    ensures
        bucket_order(voxels.push(v), order) == bucket_order(voxels, order),
        marched(voxels.push(v), order) == marched(voxels, order),
{
    let more = voxels.push(v);
    assert forall|k: (u32, u8)| #[trigger] same_voxels(more, voxels, k) by {
        assert forall|w: Voxel| bucket_key(w) == k implies (#[trigger] more.contains(w)
            <==> voxels.contains(w)) by {
            lemma_push_contains(voxels, v, w);
        }
    }
    assert forall|k: (u32, u8)| #[trigger] bucket_keys(more).contains(k) == bucket_keys(
        voxels,
    ).contains(k) by {
        assert(same_voxels(more, voxels, k));
        lemma_bucket_of_same(more, voxels, k);
    }
    assert(bucket_keys(more) =~= bucket_keys(voxels));
    let a = Seq::new(order.len(), |i: int| marched_part(more, order[i]));
    let b = Seq::new(order.len(), |i: int| marched_part(voxels, order[i]));
    assert forall|i: int| 0 <= i < order.len() implies #[trigger] a[i] == b[i] by {
        assert(same_voxels(more, voxels, order[i]));
        lemma_bucket_of_same(more, voxels, order[i]);
    }
    assert(a =~= b);
}

/// Both models fill the same cells, in whatever colours.
spec fn same_shape(a: Cells, b: Cells) -> bool {
    a.dom() == b.dom()
}

proof fn lemma_same_value(a: Cells, b: Cells, x: int, y: int, z: int)
    requires
        same_shape(a, b),
    ensures
        node_value(a, x, y, z) == node_value(b, x, y, z),
{
    reveal(node_value);
    assert forall|c: VoxelCoord| #[trigger] a.contains_key(c) == b.contains_key(c) by {
        assert(a.dom().contains(c) == b.dom().contains(c));
    }
}

proof fn lemma_same_active(a: Cells, b: Cells, x: int, y: int, z: int)
    requires
        same_shape(a, b),
    ensures
        active(a, x, y, z) == active(b, x, y, z),
{
    assert forall|i: int, j: int, k: int| #[trigger] node_value(a, i, j, k) == node_value(
        b,
        i,
        j,
        k,
    ) by {
        lemma_same_value(a, b, i, j, k);
    }
}

proof fn lemma_same_row(a: Cells, b: Cells, x: int, y: int, z: int, n: nat)
    requires
        same_shape(a, b),
    ensures
        row_cells(a, x, y, z, n) == row_cells(b, x, y, z, n),
    decreases n,
{
    if n > 0 {
        lemma_same_row(a, b, x, y, z, (n - 1) as nat);
        lemma_same_active(a, b, x + n - 1, y, z);
    }
}

proof fn lemma_same_plane(a: Cells, b: Cells, x: int, y: int, z: int, w: nat, n: nat)
    requires
        same_shape(a, b),
    ensures
        plane_cells(a, x, y, z, w, n) == plane_cells(b, x, y, z, w, n),
    decreases n,
{
    if n > 0 {
        lemma_same_plane(a, b, x, y, z, w, (n - 1) as nat);
        lemma_same_row(a, b, x, y + n - 1, z, w);
    }
}

proof fn lemma_same_volume(a: Cells, b: Cells, x: int, y: int, z: int, w: nat, h: nat, n: nat)
    requires
        same_shape(a, b),
    ensures
        volume_cells(a, x, y, z, w, h, n) == volume_cells(b, x, y, z, w, h, n),
    decreases n,
{
    if n > 0 {
        lemma_same_volume(a, b, x, y, z, w, h, (n - 1) as nat);
        lemma_same_plane(a, b, x, y, z + n - 1, w, h);
    }
}

proof fn lemma_same_quad(
    a: Cells,
    b: Cells,
    s: Seq<VoxelCoord>,
    axis: int,
    o: int,
    p: int,
    q: int,
)
    requires
        same_shape(a, b),
    ensures
        edge_quad(a, s, axis, o, p, q) == edge_quad(b, s, axis, o, p, q),
{
    assert forall|i: int, j: int, k: int| #[trigger] node_value(a, i, j, k) == node_value(
        b,
        i,
        j,
        k,
    ) by {
        lemma_same_value(a, b, i, j, k);
    }
}

proof fn lemma_same_line(
    a: Cells,
    b: Cells,
    s: Seq<VoxelCoord>,
    axis: int,
    o: int,
    p: int,
    q: int,
    n: nat,
)
    requires
        same_shape(a, b),
    ensures
        line_quads(a, s, axis, o, p, q, n) == line_quads(b, s, axis, o, p, q, n),
    decreases n,
{
    if n > 0 {
        lemma_same_line(a, b, s, axis, o, p, q, (n - 1) as nat);
        lemma_same_quad(a, b, s, axis, o, p, q + n - 1);
    }
}

proof fn lemma_same_sheet(
    a: Cells,
    b: Cells,
    s: Seq<VoxelCoord>,
    axis: int,
    o: int,
    p: int,
    q: int,
    nq: nat,
    n: nat,
)
    requires
        same_shape(a, b),
    ensures
        sheet_quads(a, s, axis, o, p, q, nq, n) == sheet_quads(b, s, axis, o, p, q, nq, n),
    decreases n,
{
    if n > 0 {
        lemma_same_sheet(a, b, s, axis, o, p, q, nq, (n - 1) as nat);
        lemma_same_line(a, b, s, axis, o, p + n - 1, q, nq);
    }
}

proof fn lemma_same_axis(
    a: Cells,
    b: Cells,
    s: Seq<VoxelCoord>,
    axis: int,
    o: int,
    p: int,
    q: int,
    np: nat,
    nq: nat,
    n: nat,
)
    requires
        same_shape(a, b),
    ensures
        axis_quads(a, s, axis, o, p, q, np, nq, n) == axis_quads(b, s, axis, o, p, q, np, nq, n),
    decreases n,
{
    if n > 0 {
        lemma_same_axis(a, b, s, axis, o, p, q, np, nq, (n - 1) as nat);
        lemma_same_sheet(a, b, s, axis, o + n - 1, p, q, nq, np);
    }
}

/// The vertices and triangles of a dual contouring surface depend on which cells are
/// filled, not on their colours.
pub proof fn law_surface_ignores_colors(a: Cells, b: Cells)
    requires
        a.dom() == b.dom(),
    ensures
        surface_cells(a) == surface_cells(b),
        surface_quads(a) == surface_quads(b),
{
    reveal(surface_cells);
    let (m, n) = lattice_frame(a.dom());
    lemma_same_volume(a, b, m.0 - 1, m.1 - 1, m.2 - 1, n.0 + 1, n.1 + 1, n.2 + 1);
    let s = surface_cells(a);
    lemma_same_axis(a, b, s, 0, m.0, m.1, m.2, n.1, n.2, (n.0 - 1) as nat);
    lemma_same_axis(a, b, s, 1, m.1, m.0, m.2, n.0, n.2, (n.1 - 1) as nat);
    lemma_same_axis(a, b, s, 2, m.2, m.0, m.1, n.0, n.1, (n.2 - 1) as nat);
}

/// A model in one colour and material.
pub open spec fn painted(voxels: Seq<Voxel>, color: u32, material: MaterialId) -> Seq<Voxel> {
    Seq::new(voxels.len(), |i: int| Voxel { color, material, ..voxels[i] })
}

/// The dual contouring surface of a model has as many vertices and triangles as that
/// of the model in one colour and material, once for each of its buckets.
#[verifier::spinoff_prover]
pub proof fn law_contoured_counts_multiply(
    voxels: Seq<Voxel>,
    order: Seq<(u32, u8)>,
    color: u32,
    material: MaterialId,
)
    requires
        voxels.len() <= usize::MAX,
        bucket_order(voxels, order),
    ensures
        ({
            let one = counts(
                contoured_model(
                    painted(voxels, color, material),
                    seq![(color, material_rank(material) as u8)],
                ),
            );
            counts(contoured_model(voxels, order)) == (
                (order.len() * one.0) as nat,
                (order.len() * one.1) as nat,
            )
        }),
{
    let plain = painted(voxels, color, material);
    let k = (color, material_rank(material) as u8);
    let (a, b) = (model_cells(voxels), model_cells(plain));
    lemma_painted_cells(voxels, plain);
    lemma_painted_cells(plain, voxels);
    assert(a.dom() =~= b.dom());
    law_surface_ignores_colors(a, b);
    assert forall|i: int| 0 <= i < order.len() implies bucket_keys(voxels).contains(
        #[trigger] order[i],
    ) by {
        assert(order.to_set().contains(order[i]));
    }
    let v = surface_cells(a).len() as int;
    let q = surface_quads(a).len() as int;
    let n = order.len() as int;
    let one = counts(contoured_model(plain, seq![k]));
    lemma_contoured_counts(voxels, order);
    assert(counts(contoured_model(voxels, order)) == ((n * v) as nat, (n * q) as nat));
    if n > 0 {
        assert(bucket_keys(voxels).contains(order[0]));
        let i = choose|i: int|
            0 <= i < voxels.len() && bucket_key(#[trigger] voxels[i]) == order[0];
        assert(bucket_key(plain[i]) == k);
        assert(bucket_keys(plain).contains(k));
        lemma_contoured_counts(plain, seq![k]);
        assert(1 * v == v && 1 * q == q);
        assert(one == (v as nat, q as nat));
    } else {
        assert(0 * v == 0 && 0 * q == 0 && 0 * one.0 == 0 && 0 * one.1 == 0);
    }
}

proof fn lemma_painted_cells(a: Seq<Voxel>, b: Seq<Voxel>)
    requires
        a.len() == b.len(),
        a.len() <= usize::MAX,
        forall|i: int| 0 <= i < a.len() ==> coord_of(#[trigger] a[i]) == coord_of(b[i]),
    ensures
        forall|c: VoxelCoord| #[trigger]
            model_cells(a).dom().contains(c) ==> model_cells(b).dom().contains(c),
{
    lemma_model_positions(a);
    lemma_all_positions(b);
    assert forall|c: VoxelCoord| #[trigger] model_cells(a).dom().contains(c) implies model_cells(
        b,
    ).dom().contains(c) by {
        assert(all_positions(a).contains_key(c));
        let i = all_positions(a)[c] as int;
        assert(coord_of(a[i]) == c);
        assert(all_positions(b).contains_key(coord_of(b[i])));
    }
}

proof fn lemma_contoured_counts(voxels: Seq<Voxel>, order: Seq<(u32, u8)>)
    requires
        forall|i: int| 0 <= i < order.len() ==> bucket_keys(voxels).contains(#[trigger] order[i]),
    ensures
        counts(contoured_model(voxels, order)) == (
            (order.len() * surface_cells(model_cells(voxels)).len()) as nat,
            (order.len() * surface_quads(model_cells(voxels)).len()) as nat,
        ),
    decreases order.len(),
{
    let (v, q) = (
        surface_cells(model_cells(voxels)).len() as int,
        surface_quads(model_cells(voxels)).len() as int,
    );
    if order.len() == 0 {
        let parts = Seq::new(order.len(), |i: int| contoured_part(voxels, order[i]));
        assert(present(parts) =~= Seq::<Surface>::empty());
        assert(0 * v == 0 && 0 * q == 0);
    } else {
        let head = order.drop_last();
        assert forall|i: int| 0 <= i < head.len() implies bucket_keys(voxels).contains(
            #[trigger] head[i],
        ) by {
            assert(head[i] == order[i]);
        }
        lemma_contoured_counts(voxels, head);
        lemma_contoured_last(voxels, order);
        assert(bucket_keys(voxels).contains(order[order.len() - 1]));
        let n = head.len() as int;
        assert((n + 1) * v == n * v + v && (n + 1) * q == n * q + q) by (nonlinear_arith);
    }
}

} // verus!
