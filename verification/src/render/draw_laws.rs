//! What is drawn of what was uploaded, and where it lands.

use vstd::prelude::*;

use crate::preview::display::shown;
use crate::preview::plan::{PreviewMesh, PreviewMeshPrepared};
use crate::render::avatar::{
    avatar_draws, drawn_mesh, lemma_mesh_found, without_peer, AvatarDraw, AvatarMeshData,
    AvatarPeerEntry,
};
use crate::render::chunk_table::{ChunkDraw, ChunkEntry};
use crate::render::frame::{
    colors_of, depth_target, frame, scene_steps, FrameInputs, FrameStep, PassId,
};
use crate::render::mesh_buffers::{opaque_lane, MeshBuffers};
use crate::render::mesh_greedy::{
    device_takes, greedy_plan, total_cells, DeviceLimits, SliceSize,
};
use crate::render::opaque::{
    after_split, chunk_draws, chunk_range, draw_of, draws, holds_mesh, refilled,
    DrawPart, MeshDraw, MeshRoute, OpaqueScene,
};
use crate::render::overlays::{
    gizmo_calls, line_buffer, ping_calls, preview_calls, selection_solid_calls, size_action,
    BufferAction, DrawCall, Geometry, Overlays, PreviewSizes,
};
use crate::render::pipelines::PipelineId;
use crate::render::rebuild::{rebuild_start, ObjectState, RebuildStart};
use crate::render::speech_bubble::{
    dismissed_by, kept_by, without_id, BubbleState, ShakeTick, SpeechBubble,
};
use crate::render::surface::{kept_extent, kept_start};
use crate::render::textures::TextureId;
use crate::render::viewer::{aids, opaque_pass, SceneDraw, WgpuViewer};
use crate::voxelle::{Voxel, VoxelCoord};

verus! {

/// A mesh in the single buffers is drawn from its first index to its last: the
/// shadow pass draws all, and where its indices are sorted the opaque pass draws
/// those before the split and the transparent pass the others.
pub proof fn law_uploaded_mesh_is_drawn(s: OpaqueScene, m: MeshBuffers, split: u32)
    requires
        holds_mesh(s, m, split),
        0 < m.indices@.len() <= u32::MAX,
        split <= m.indices@.len(),
    ensures
        draws(s, DrawPart::All) == seq![
            MeshDraw { chunk: None, start: 0, end: m.indices@.len() as u32 },
        ],
        0 < split ==> draws(s, DrawPart::Opaque) == seq![
            MeshDraw { chunk: None, start: 0, end: split },
        ],
        split < m.indices@.len() ==> draws(s, DrawPart::Transparent) == seq![
            MeshDraw { chunk: None, start: split, end: m.indices@.len() as u32 },
        ],
        split == m.indices@.len() ==> draws(s, DrawPart::Transparent).len() == 0,
{
}

/// A chunk is drawn for a part exactly where it has indices of that part, over those
/// indices.
pub proof fn law_chunks_with_indices_are_drawn(s: Seq<ChunkEntry>, part: DrawPart, i: int)
    requires
        0 <= i < s.len(),
        chunk_range(s[i].draw, part).0 < chunk_range(s[i].draw, part).1,
    ensures
        chunk_draws(s, part).contains(
            MeshDraw {
                chunk: Some(s[i].key),
                start: chunk_range(s[i].draw, part).0 as u32,
                end: chunk_range(s[i].draw, part).1 as u32,
            },
        ),
    decreases s.len(),
{
    let head = s.drop_last();
    let before = chunk_draws(head, part);
    let all = chunk_draws(s, part);
    let wanted = MeshDraw {
        chunk: Some(s[i].key),
        start: chunk_range(s[i].draw, part).0 as u32,
        end: chunk_range(s[i].draw, part).1 as u32,
    };
    if i < head.len() {
        law_chunks_with_indices_are_drawn(head, part, i);
        let k = choose|k: int| 0 <= k < before.len() && before[k] == wanted;
        assert(all[k] == wanted);
    } else {
        assert(all[before.len() as int] == wanted);
    }
}

/// Draw buffers made for a mesh have room for all of it, and their two parts are
/// together its indices.
pub proof fn law_draw_buffers_hold_the_mesh(m: MeshBuffers, split: u32)
    requires
        m.indices@.len() <= u32::MAX,
        m.positions@.len() <= u32::MAX,
        split <= m.indices@.len(),
    ensures
        ({
            let d = draw_of(m, split);
            &&& d.opaque_index_count + d.transparent_index_count == m.indices@.len()
            &&& d.opaque_index_count == split
            &&& d.index_bytes == 4 * m.indices@.len()
            &&& d.vertex_bytes == 56 * (m.positions@.len() as int / 3)
        }),
{
}

/// Indices before a split and after it are all of them; a split beyond the end
/// leaves none after it.
pub proof fn law_split_parts_the_indices(count: u32, split: u32)
    ensures
        split <= count ==> split + after_split(count, split) == count,
        split >= count ==> after_split(count, split) == 0,
{
}

/// Filling draw buffers anew draws the new indices, and takes over the old buffers
/// only where both are large enough.
pub proof fn law_refill_draws_the_new_indices(d: Option<ChunkDraw>, new: ChunkDraw)
    ensures
        refilled(d, new).opaque_index_count == new.opaque_index_count,
        refilled(d, new).transparent_index_count == new.transparent_index_count,
        refilled(d, new).partitioned == new.partitioned,
        refilled(d, new).vertex_bytes >= new.vertex_bytes,
        refilled(d, new).index_bytes >= new.index_bytes,
        d is Some && d->0.vertex_bytes >= new.vertex_bytes && d->0.index_bytes >= new.index_bytes
            ==> refilled(d, new).vertex_bytes == d->0.vertex_bytes && refilled(d, new).index_bytes
            == d->0.index_bytes,
{
}

/// A plan that the device takes stays within what it can hold: the buffers have room
/// for a vertex of each corner and both triangles of each cell, and there is one
/// workgroup for each slice.
pub proof fn law_taken_plan_fits_the_device(
    s: Seq<SliceSize>,
    lim: DeviceLimits,
    origin: VoxelCoord,
    dims: (u32, u32, u32),
)
    requires
        device_takes(s, lim),
    ensures
        ({
            let p = greedy_plan(s, origin, dims);
            &&& p.vertex_bytes <= lim.max_buffer_size
            &&& p.vertex_bytes <= lim.max_storage_buffer_binding_size
            &&& p.index_bytes <= lim.max_buffer_size
            &&& p.index_bytes <= lim.max_storage_buffer_binding_size
            &&& p.params.slice_count == s.len()
            &&& p.params.slice_count <= lim.max_compute_workgroups_per_dimension
            &&& p.vertex_bytes == 56 * p.params.max_vertices
            &&& p.index_bytes == 4 * p.params.max_indices
            &&& p.params.max_vertices >= 1 && p.params.max_indices >= 1
            &&& p.params.max_vertices >= 4 * total_cells(s) || p.params.max_vertices == u32::MAX
            &&& p.params.max_indices >= 6 * total_cells(s) || p.params.max_indices == u32::MAX
        }),
{
}

/// The cells of slices are counted slice by slice, however the slices are grouped.
pub proof fn law_cells_add_up(a: Seq<SliceSize>, b: Seq<SliceSize>)
    ensures
        total_cells(a + b) == total_cells(a) + total_cells(b),
        b.len() == 1 ==> total_cells(b) == b[0].width * b[0].height,
    decreases b.len(),
{
    if b.len() == 0 {
        assert(a + b =~= a);
    } else {
        law_cells_add_up(a, b.drop_last());
        assert((a + b).drop_last() =~= a + b.drop_last());
        if b.len() == 1 {
            assert(b.drop_last() =~= Seq::<SliceSize>::empty());
            assert(total_cells(b.drop_last()) == 0);
        }
    }
}

/// A texel of the surface lies in the viewport that is kept exactly where it lies in
/// the one that was asked for, if that begins within the surface and has an extent.
pub proof fn law_viewport_keeps_the_texels_that_exist(
    start: int,
    extent: int,
    surface: int,
    texel: int,
)
    requires
        0 <= start < surface,
        0 < extent,
        0 <= texel < surface,
    ensures
        kept_start(start, surface) <= texel < kept_start(start, surface) + kept_extent(
            start,
            extent,
            surface,
        ) <==> start <= texel < start + extent,
{
}

/// Removing a bubble keeps the others in their order.
pub proof fn law_other_bubbles_stay(s: Seq<SpeechBubble>, id: u32)
    ensures
        without_id(s, id) == s.filter(|b: SpeechBubble| b.id != id),
    decreases s.len(),
{
    reveal(Seq::filter);
    if s.len() > 0 {
        law_other_bubbles_stay(s.drop_last(), id);
    } else {
        assert(without_id(s, id) =~= s.filter(|b: SpeechBubble| b.id != id));
    }
}

/// Removing a peer keeps the others in their order.
pub proof fn law_other_peers_stay(s: Seq<AvatarPeerEntry>, id: u32)
    ensures
        without_peer(s, id) == s.filter(|p: AvatarPeerEntry| p.peer_id != id),
    decreases s.len(),
{
    reveal(Seq::filter);
    if s.len() > 0 {
        law_other_peers_stay(s.drop_last(), id);
    } else {
        assert(without_peer(s, id) =~= s.filter(|p: AvatarPeerEntry| p.peer_id != id));
    }
}

/// Each peer whose mesh has indices is drawn, with the first mesh of its name, or
/// with the first nameless one where its name has none.
pub proof fn law_every_peer_is_drawn_with_its_mesh(
    meshes: Seq<AvatarMeshData>,
    peers: Seq<AvatarPeerEntry>,
    n: int,
    i: int,
    m: int,
)
    requires
        0 <= i < n <= peers.len(),
        n <= usize::MAX,
        meshes.len() <= usize::MAX,
        0 <= m < meshes.len(),
        meshes[m].index_count > 0,
        ({
            let name = peers[i].mesh_name@;
            let named = exists|k: int| 0 <= k < meshes.len() && (#[trigger] meshes[k]).name@ == name;
            if named {
                meshes[m].name@ == name && forall|k: int|
                    0 <= k < m ==> (#[trigger] meshes[k]).name@ != name
            } else {
                meshes[m].name@ == ""@ && forall|k: int|
                    0 <= k < m ==> (#[trigger] meshes[k]).name@ != ""@
            }
        }),
    ensures
        avatar_draws(meshes, peers, n).contains(AvatarDraw { peer: i as usize, mesh: m as usize }),
    decreases n,
{
    let wanted = AvatarDraw { peer: i as usize, mesh: m as usize };
    let before = avatar_draws(meshes, peers, n - 1);
    let all = avatar_draws(meshes, peers, n);
    if i < n - 1 {
        law_every_peer_is_drawn_with_its_mesh(meshes, peers, n - 1, i, m);
        let k = choose|k: int| 0 <= k < before.len() && before[k] == wanted;
        assert(all[k] == wanted);
    } else {
        lemma_drawn_mesh(meshes, peers[i].mesh_name@, m);
        assert(all[before.len() as int] == wanted);
    }
}

proof fn lemma_drawn_mesh(meshes: Seq<AvatarMeshData>, name: Seq<char>, m: int)
    requires
        0 <= m < meshes.len(),
        ({
            let named = exists|k: int| 0 <= k < meshes.len() && (#[trigger] meshes[k]).name@ == name;
            if named {
                meshes[m].name@ == name && forall|k: int|
                    0 <= k < m ==> (#[trigger] meshes[k]).name@ != name
            } else {
                meshes[m].name@ == ""@ && forall|k: int|
                    0 <= k < m ==> (#[trigger] meshes[k]).name@ != ""@
            }
        }),
    ensures
        drawn_mesh(meshes, name) == m,
{
    if exists|k: int| 0 <= k < meshes.len() && (#[trigger] meshes[k]).name@ == name {
        lemma_mesh_found(meshes, name, m);
    } else {
        lemma_mesh_found(meshes, name, meshes.len() as int);
        lemma_mesh_found(meshes, ""@, m);
    }
}

/// A gizmo on top is drawn over everything and in no other way; any other gizmo is
/// drawn in two halves, the hidden one first. Each draw is of all its vertices.
pub proof fn law_gizmo_is_on_top_or_a_ghost(o: Overlays, i: int)
    requires
        0 <= i < gizmo_calls(o).len(),
    ensures
        ({
            let c = gizmo_calls(o)[i];
            let always = c.pipeline == PipelineId::GizmoLinesAlways || c.pipeline
                == PipelineId::GizmoTrisAlways;
            &&& always <==> o.gizmo_on_top
            &&& c.instances == 1
            &&& c.geometry == Geometry::GizmoLines ==> o.gizmo_lines is Some && c.count
                == (o.gizmo_lines->0).vertices
            &&& c.geometry == Geometry::GizmoTris ==> o.gizmo_tris is Some && c.count
                == (o.gizmo_tris->0).vertices
            &&& c.geometry == Geometry::GizmoLines || c.geometry == Geometry::GizmoTris
        }),
{
}

/// A frame ends by being presented, after its work was submitted.
pub proof fn law_frame_is_submitted_and_presented(f: FrameInputs)
    ensures
        frame(f).last() == FrameStep::Present,
        frame(f).contains(FrameStep::Submit),
        f.auto_exposure ==> frame(f).contains(FrameStep::ReadMeter),
{
    let all = frame(f);
    let n = all.len() as int;
    if f.auto_exposure {
        assert(all[n - 3] == FrameStep::Submit);
        assert(all[n - 2] == FrameStep::ReadMeter);
    } else {
        assert(all[n - 2] == FrameStep::Submit);
    }
    assert(all[n - 1] == FrameStep::Present);
}

/// The scene is traced where tracing is on, onto the side that is due, and drawn from
/// meshes where it is off.
pub proof fn law_scene_is_traced_or_drawn(f: FrameInputs, side: bool)
    ensures
        f.raytrace <==> !scene_steps(f).contains(FrameStep::Pass(PassId::Opaque)),
        scene_steps(f).contains(FrameStep::Pass(PassId::Raytrace(side))) <==> f.raytrace
            && !f.fast_preview && side == f.flip,
        scene_steps(f).contains(FrameStep::Pass(PassId::RaytracePreview(side))) <==> f.raytrace
            && f.fast_preview && side == f.flip,
{
    let s = scene_steps(f);
    if f.raytrace {
        assert(s[1] == FrameStep::Pass(PassId::Raytrace(f.flip)) || s[1] == FrameStep::Pass(
            PassId::RaytracePreview(f.flip),
        ));
    } else {
        assert(exists|i: int| 0 <= i < s.len() && s[i] == FrameStep::Pass(PassId::Opaque)) by {
            assert(s[0] == FrameStep::Pass(PassId::Opaque) || s[1] == FrameStep::Pass(
                PassId::Opaque,
            ) || s[2] == FrameStep::Pass(PassId::Opaque));
        }
    }
}

/// A draw of all of a mesh once.
pub open spec fn once(pipeline: PipelineId, geometry: Geometry, count: u32) -> DrawCall {
    DrawCall { pipeline, geometry, count, instances: 1 }
}

/// The faces of the selection, of the part of a preview that is not instanced and of
/// a ping are drawn twice, whole: first where they are hidden, then in front.
pub proof fn law_faces_are_drawn_in_both_halves(o: Overlays)
    ensures
        o.selection_solid matches Some(n) && n > 0 ==> selection_solid_calls(o) == seq![
            once(PipelineId::PreviewOccluded, Geometry::SelectionSolid, (o.selection_solid->0)),
            once(PipelineId::PreviewFront, Geometry::SelectionSolid, (o.selection_solid->0)),
        ],
        o.ping_solid matches Some(n) && n > 0 ==> ping_calls(o).len() >= 2 && ping_calls(o)[0]
            == once(PipelineId::PreviewOccluded, Geometry::PingSolid, (o.ping_solid->0))
            && ping_calls(o)[1] == once(
            PipelineId::PreviewFront,
            Geometry::PingSolid,
            (o.ping_solid->0),
        ),
        o.selection_solid is None || o.selection_solid == Some(0u32) ==> selection_solid_calls(
            o,
        ).len() == 0,
{
    if o.selection_solid matches Some(n) && n > 0 {
        assert(selection_solid_calls(o) =~= seq![
            once(PipelineId::PreviewOccluded, Geometry::SelectionSolid, (o.selection_solid->0)),
            once(PipelineId::PreviewFront, Geometry::SelectionSolid, (o.selection_solid->0)),
        ]);
    }
}

/// The cubes of a preview are drawn for all their instances, first where they are
/// hidden, then in front; nothing is drawn of a preview without instances.
pub proof fn law_preview_cubes_are_drawn_in_both_halves(o: Overlays)
    requires
        o.preview_solid matches Some(p) && p.instances > 0 && p.indices > 0,
    ensures
        preview_calls(o).len() >= 2,
        preview_calls(o)[0] == (DrawCall {
            pipeline: PipelineId::PreviewInstOccluded,
            geometry: Geometry::PreviewSolid,
            count: (o.preview_solid->0).indices,
            instances: (o.preview_solid->0).instances,
        }),
        preview_calls(o)[1] == (DrawCall {
            pipeline: PipelineId::PreviewInstFront,
            geometry: Geometry::PreviewSolid,
            count: (o.preview_solid->0).indices,
            instances: (o.preview_solid->0).instances,
        }),
{
}

/// The opaque pass starts with the background, the sky or that of the start screen,
/// goes on with every draw of the mesh, and draws the editing aids and avatars last.
pub proof fn law_opaque_pass_draws_back_to_front(v: WgpuViewer, i: int)
    ensures
        opaque_pass(v).len() == 1 + draws(v.opaque, DrawPart::Opaque).len() + aids(v).len(),
        opaque_pass(v)[0] == SceneDraw::Background(PipelineId::StartScreenBg)
            <==> v.surface.start_screen_transparent,
        opaque_pass(v)[0] == SceneDraw::Background(PipelineId::Sky)
            <==> !v.surface.start_screen_transparent,
        0 <= i < draws(v.opaque, DrawPart::Opaque).len() ==> opaque_pass(v)[1 + i]
            == SceneDraw::Mesh(draws(v.opaque, DrawPart::Opaque)[i]),
        0 <= i < aids(v).len() ==> opaque_pass(v)[1 + draws(v.opaque, DrawPart::Opaque).len() + i]
            == aids(v)[i],
{
}

/// The bubbles that a tick keeps: a bubble that is not shaking stays as it is; one
/// that shakes goes on from its new time, or is gone where it has shaken long enough.
pub proof fn law_tick_moves_shaking_bubbles(s: Seq<SpeechBubble>, t: Seq<ShakeTick>, i: int)
    requires
        t.len() == s.len(),
        0 <= i < s.len(),
    ensures
        s[i].state == BubbleState::Active ==> kept_by(s, t).contains(s[i]),
        s[i].state is Shaking && !t[i].done ==> kept_by(s, t).contains(
            SpeechBubble { state: BubbleState::Shaking { shake_t: t[i].shake_t }, ..s[i] },
        ),
        s[i].state is Shaking && t[i].done ==> dismissed_by(s, t).contains(s[i].id),
        s[i].state == BubbleState::Dismissed ==> dismissed_by(s, t).contains(s[i].id),
    decreases s.len(),
{
    let head = s.drop_last();
    let (k, d) = (kept_by(head, t), dismissed_by(head, t));
    let (all, gone) = (kept_by(s, t), dismissed_by(s, t));
    if i < head.len() {
        lemma_ticks_of_the_first(head, t, t.drop_last());
        lemma_ticks_of_the_first(head, t.drop_last(), t);
        law_tick_moves_shaking_bubbles(head, t.drop_last(), i);
        assert forall|b: SpeechBubble| #[trigger] k.contains(b) implies all.contains(b) by {
            let j = choose|j: int| 0 <= j < k.len() && k[j] == b;
            assert(all[j] == b);
        }
        assert forall|x: u32| #[trigger] d.contains(x) implies gone.contains(x) by {
            let j = choose|j: int| 0 <= j < d.len() && d[j] == x;
            assert(gone[j] == x);
        }
    } else {
        if all.len() > k.len() {
            assert(all[k.len() as int] == all.last());
        }
        if gone.len() > d.len() {
            assert(gone[d.len() as int] == gone.last());
        }
    }
}

/// A tick goes by as many times as there are bubbles.
proof fn lemma_ticks_of_the_first(s: Seq<SpeechBubble>, t: Seq<ShakeTick>, u: Seq<ShakeTick>)
    requires
        s.len() <= t.len(),
        s.len() <= u.len(),
        forall|i: int| 0 <= i < s.len() ==> t[i] == u[i],
    ensures
        kept_by(s, t) == kept_by(s, u),
        dismissed_by(s, t) == dismissed_by(s, u),
    decreases s.len(),
{
    if s.len() > 0 {
        lemma_ticks_of_the_first(s.drop_last(), t, u);
    }
}

/// What a rebuild starts with: nothing without voxels or with all of them hidden; one
/// mesh without the device for objects that are several or moved; else the device,
/// unless it is not to be used. Nothing is meshed without bounds.
pub proof fn law_rebuild_goes_by_the_objects(
    voxels: int,
    work: Seq<Voxel>,
    objects: Seq<ObjectState>,
    all_bounded: bool,
    bounded: bool,
    forced: bool,
    i: int,
    j: int,
    k: int,
)
    requires
        0 < work.len() <= voxels,
        0 <= i < work.len(),
        0 <= j < work.len(),
    ensures
        ({
            let r = rebuild_start(voxels, work, objects, all_bounded, bounded, forced);
            &&& work[i].object_id != work[j].object_id && all_bounded ==> r == RebuildStart::Single(
                MeshRoute::CpuMultiObject,
            )
            &&& work[i].object_id != work[j].object_id && !all_bounded ==> r
                == RebuildStart::NoBounds
            &&& 0 <= k < objects.len() && objects[k].visible && objects[k].transformed ==> r
                is Single || r is NoBounds
            &&& r == RebuildStart::Fallback ==> forced && bounded
            &&& r == RebuildStart::Pack ==> !forced && bounded
            &&& !(r is NoVoxels) && !(r is AllHidden)
        }),
        rebuild_start(0, work, objects, all_bounded, bounded, forced) is NoVoxels,
        rebuild_start(voxels, Seq::empty(), objects, all_bounded, bounded, forced) is AllHidden,
{
    let r = rebuild_start(voxels, work, objects, all_bounded, bounded, forced);
    assert(work[i] == work[i] && work[j] == work[j]);
    if 0 <= k < objects.len() {
        assert(objects[k] == objects[k]);
    }
}

/// What is drawn of a preview is what was put on display: its cubes as often as it
/// has cells, and nothing where it was cleared. Lit and other previews have buffers
/// of their own, and the other editing aids stay as they are.
pub proof fn law_preview_is_drawn_as_prepared(
    o: Overlays,
    key: u64,
    mesh: PreviewMesh,
    d: PreviewSizes,
)
    requires
        0 < d.solid_instances <= u32::MAX,
        0 < d.solid_indices <= u32::MAX,
    ensures
        ({
            let plain = shown(o, PreviewMeshPrepared::Upload { cache_key: key, mesh }, d);
            let lit = shown(o, PreviewMeshPrepared::GenUpload { cache_key: key, mesh }, d);
            &&& preview_calls(plain).len() >= 2
            &&& preview_calls(plain)[0].geometry == Geometry::PreviewSolid
            &&& preview_calls(plain)[0].instances == d.solid_instances
            &&& preview_calls(plain)[0].count == d.solid_indices
            &&& plain.gen_solid == o.gen_solid && plain.gen_wire == o.gen_wire
            &&& lit.preview_solid == o.preview_solid && lit.preview_wire == o.preview_wire
            &&& lit.preview_extra == o.preview_extra
            &&& lit.gen_solid matches Some(g) && g.instances == d.solid_instances && g.indices
                == d.solid_indices
            &&& selection_solid_calls(plain) == selection_solid_calls(o)
            &&& gizmo_calls(plain) == gizmo_calls(o)
            &&& ping_calls(lit) == ping_calls(o)
        }),
        preview_calls(shown(o, PreviewMeshPrepared::Clear, d)).len() == 0,
{
}

/// The picture is drawn over, never cleared, once it is in the target: passes onto the
/// high dynamic range target and the swapchain keep what was copied there, and only
/// compositing clears what is presented.
pub proof fn law_picture_is_drawn_over(p: PassId, i: int)
    requires
        0 <= i < colors_of(p).len(),
    ensures
        ({
            let a = colors_of(p)[i];
            &&& a.texture == TextureId::Hdr || a.texture == TextureId::Swapchain ==> !a.clear
                && a.store
            &&& a.texture == TextureId::Present ==> a.store && (a.clear <==> p
                == PassId::Composite)
            &&& a.texture == TextureId::HdrOpaque ==> a.clear && a.store
        }),
{
}

/// Every pass with depth starts from a cleared depth, but the one that draws what can
/// be seen through: that is hidden by what is there.
pub proof fn law_depth_is_kept_for_the_transparent(p: PassId)
    ensures
        depth_target(p) matches Some(d) ==> (d.clear <==> p != PassId::OitAccum),
        depth_target(PassId::OitAccum) is Some,
        (depth_target(PassId::OitAccum)->0).texture == (depth_target(PassId::Opaque)->0).texture,
{
}

/// Line data becomes whole vertices of six lanes, all of it, or no buffer at all.
pub proof fn law_lines_are_whole_vertices(lanes: usize, n: int)
    requires
        lanes / 6 <= u32::MAX,
    ensures
        line_buffer(lanes) matches Some(b) ==> b.lanes == lanes && 6 * b.vertices == lanes && lanes
            > 0,
        line_buffer(lanes) is None && n > 0 ==> 6 * n != lanes,
{
}

/// A buffer is written over only by data of its own size, and let go only where there
/// is none.
pub proof fn law_buffers_are_reused_for_their_size(had: Option<usize>, wanted: Option<usize>)
    ensures
        size_action(had, wanted) == BufferAction::Drop <==> wanted is None,
        size_action(had, wanted) == BufferAction::Rewrite <==> wanted is Some && had is Some
            && had->0 == wanted->0,
{
}

/// A vertex is three lanes of position, three of normal, three of colour, one of the
/// material kind, one of occlusion and three of emission tint, each of its own data.
pub proof fn law_vertex_lanes(m: MeshBuffers, i: int, k: int)
    requires
        m.complete(),
        0 <= i < m.vertices(),
        0 <= k < 3,
    ensures
        opaque_lane(m, i, k) == m.positions@[3 * i + k],
        opaque_lane(m, i, 3 + k) == m.normals@[3 * i + k],
        opaque_lane(m, i, 6 + k) == m.colors@[3 * i + k],
        opaque_lane(m, i, 9) == m.mat_kind@[i],
        i < m.ao@.len() ==> opaque_lane(m, i, 10) == m.ao@[i],
        3 * i + k < m.emission_tint@.len() ==> opaque_lane(m, i, 11 + k) == m.emission_tint@[3 * i
            + k],
{
}

} // verus!
