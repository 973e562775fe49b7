use std::collections::VecDeque;

use voxel_view::render::chunk_table::{ChunkDraw, ChunkTable};
use voxel_view::render::mesh_buffers::MeshBuffers;
use voxel_view::render::mesh_greedy::{
    mesh_greedy_dispatch, plan_greedy_dispatch, settle_greedy_dispatch, DeviceLimits, GreedyError,
    MeshGreedyPool, SliceSize,
};
use voxel_view::render::opaque::{
    ChunkMesh, EmptyVoxels, MeshDraw, MeshRoute, OpaqueScene, PendingStep, PreparedOpaqueUpload,
};
use voxel_view::render::overlays::{
    upload_buf, BorderBuffers, BufferAction, Geometry, Overlays, PreviewSizes,
};
use voxel_view::render::pipelines::PipelineId;
use voxel_view::render::raytrace::RaytraceState;
use voxel_view::render::rebuild::{
    chunk_after_kernel, chunk_after_mesh, chunk_core, chunk_uses_kernel,
    compute_greedy_rebuild_cpu, cpu_mesh_fallback_prepare, fallback_chunks, multi_object,
    progress_due, rebuild_packed, remesh_start, transformed_object, ChunkOutcome, CpuMesh,
    FallbackChunks, FallbackStart, ObjectState, PreparedGreedyRebuild, RebuildApplied,
    RebuildPacked, RebuildStart, RemeshStart, SpatialEdit,
};
use voxel_view::render::scene_data::{settle_samples, BrickAction, BrickLayout, BrickState};
use voxel_view::render::surface::{
    choose_alpha_mode, choose_hdr_format, choose_surface_format, AlphaMode, MeterAction,
    MeterEvent, OfferedFormat, SurfaceState,
};
use voxel_view::render::viewer::{SceneDraw, WgpuViewer};
use voxel_view::voxelle::{MaterialId, Voxel, VoxelEditDelta};

const LIMITS: DeviceLimits = DeviceLimits {
    max_buffer_size: 1 << 28,
    max_storage_buffer_binding_size: 1 << 27,
    max_compute_workgroups_per_dimension: 65535,
};

fn mesh(vertices: usize, indices: usize) -> MeshBuffers {
    MeshBuffers {
        positions: vec![0; 3 * vertices],
        normals: vec![0; 3 * vertices],
        colors: vec![0; 3 * vertices],
        mat_kind: vec![0; vertices],
        ao: vec![],
        emission_tint: vec![],
        indices: vec![0; indices],
    }
}

fn chunk(x: i32, indices: usize, split: u32) -> ChunkMesh {
    ChunkMesh { key: (x, 0, 0), mesh: mesh(4, indices), split }
}

fn draw(chunk: Option<i32>, start: u32, end: u32) -> MeshDraw {
    MeshDraw { chunk: chunk.map(|x| (x, 0, 0)), start, end }
}

fn voxel(x: i32, object_id: u32) -> Voxel {
    Voxel { x, y: 0, z: 0, color: 0, material: MaterialId::Plastic, object_id }
}

#[test]
fn greedy_plan_counts_the_cells() {
    let slices = [SliceSize { width: 4, height: 5 }, SliceSize { width: 1, height: 3 }];
    let plan = plan_greedy_dispatch(&slices, &LIMITS, (1, -2, 3), (8, 9, 10)).unwrap();
    assert_eq!((plan.params.max_vertices, plan.params.max_indices), (92, 138));
    assert_eq!((plan.vertex_bytes, plan.index_bytes), (92 * 56, 138 * 4));
    assert_eq!(plan.params.slice_count, 2);
    assert_eq!((plan.params.brick_oy, plan.params.brick_dz), (-2, 10));
    let empty = plan_greedy_dispatch(
        &[SliceSize { width: 0, height: 9 }],
        &LIMITS,
        (0, 0, 0),
        (1, 1, 1),
    );
    assert_eq!(empty.unwrap().params.max_vertices, 1);
}

#[test]
fn greedy_errors() {
    let origin = (0, 0, 0);
    let dims = (1, 1, 1);
    assert_eq!(
        plan_greedy_dispatch(&[], &LIMITS, origin, dims),
        Err(GreedyError::EmptyHeaders),
    );
    let huge = [SliceSize { width: u32::MAX, height: u32::MAX }];
    assert_eq!(
        plan_greedy_dispatch(&huge, &LIMITS, origin, dims),
        Err(GreedyError::OverDeviceLimits),
    );
    let two = [SliceSize { width: 1, height: 1 }; 2];
    let narrow = DeviceLimits { max_compute_workgroups_per_dimension: 1, ..LIMITS };
    assert_eq!(
        plan_greedy_dispatch(&two, &narrow, origin, dims),
        Err(GreedyError::OverDeviceLimits),
    );
    let plan = plan_greedy_dispatch(&two, &LIMITS, origin, dims).unwrap();
    assert_eq!(settle_greedy_dispatch(&plan, &[8, 0, 0, 0, 12, 0, 0, 0]), Ok((8, 12)));
    assert_eq!(
        settle_greedy_dispatch(&plan, &[8, 0, 0, 0, 0, 1, 0, 0]),
        Err(GreedyError::CounterOverflow),
    );
    assert_eq!(GreedyError::EmptyHeaders.message(), "gpu greedy: empty headers");
    assert_eq!(GreedyError::OverDeviceLimits.message(), "gpu greedy: over device limits");
    assert_eq!(GreedyError::CounterOverflow.message(), "gpu greedy: counter overflow");
}

#[test]
fn scratch_buffers_only_grow() {
    let mut pool = MeshGreedyPool::new();
    assert!(pool.ensure_vtx_out(100) && pool.vtx_cap.unwrap() >= 100);
    let cap = pool.vtx_cap;
    assert!(!pool.ensure_vtx_out(50));
    assert_eq!(pool.vtx_cap, cap);
    assert!(pool.ensure_idx_out(7) && !pool.ensure_idx_out(7));
    assert!(pool.ensure_counters() && !pool.ensure_counters());
    assert!(pool.ensure_readback() && !pool.ensure_readback());
    assert!(pool.ensure_kernel() && !pool.ensure_kernel());
    let one = [SliceSize { width: 2, height: 2 }];
    let start = mesh_greedy_dispatch(&mut pool, &one, &LIMITS, (0, 0, 0), (1, 1, 1)).unwrap();
    assert!(!start.make_counters && !start.make_kernel && !start.make_readback);
    assert!(start.make_vtx_out && pool.vtx_cap.unwrap() >= start.plan.vertex_bytes);
    let before = pool.vtx_cap;
    assert!(mesh_greedy_dispatch(&mut pool, &[], &LIMITS, (0, 0, 0), (1, 1, 1)).is_err());
    assert_eq!(pool.vtx_cap, before);
}

#[test]
fn chunks_are_found_by_key() {
    let d = |n| ChunkDraw {
        vertex_bytes: n,
        index_bytes: 0,
        opaque_index_count: 0,
        transparent_index_count: 0,
        partitioned: true,
    };
    let mut t = ChunkTable::new();
    t.insert((1, 0, 0), d(1));
    t.insert((0, 5, 0), d(2));
    t.insert((0, -5, 9), d(3));
    t.insert((1, 0, 0), d(4));
    assert_eq!(t.get((1, 0, 0)), Some(d(4)));
    assert_eq!(t.get((0, 0, 0)), None);
    let keys: Vec<_> = t.entries.iter().map(|e| e.key).collect();
    assert_eq!(keys, vec![(0, -5, 9), (0, 5, 0), (1, 0, 0)]);
    t.remove((0, 5, 0));
    t.remove((7, 7, 7));
    assert_eq!(t.entries.len(), 2);
}

#[test]
fn single_mesh_is_split_between_passes() {
    let mut s = OpaqueScene::new();
    assert!(s.draw_indexed_mesh_all().is_empty());
    s.upload_mesh(&mesh(10, 30), 18);
    assert_eq!(s.draw_indexed_mesh(), vec![draw(None, 0, 18)]);
    assert_eq!(s.draw_indexed_oit_mesh(), vec![draw(None, 18, 30)]);
    assert_eq!(s.draw_indexed_mesh_all(), vec![draw(None, 0, 30)]);
    assert_eq!((s.opaque_index_count(), s.opaque_vertex_buffer_vertices()), (30, 10));
    s.upload_mesh(&mesh(10, 30), 0);
    assert_eq!(s.draw_indexed_mesh(), vec![draw(None, 0, 30)]);
}

#[test]
fn chunks_come_in_batches() {
    let mut s = OpaqueScene::new();
    let meshes: Vec<ChunkMesh> = (0..10).map(|x| chunk(x, 6, 6)).collect();
    let now = s.upload_prepared_opaque(PreparedOpaqueUpload::Chunked {
        chunk_origin: (3, 3, 3),
        meshes,
    });
    assert_eq!(now.len(), 8);
    assert!(s.has_pending_chunk_uploads() && s.has_spatial_mesh_cache());
    assert_eq!(s.draw_indexed_mesh().len(), 8);
    s.upload_or_replace_chunk_mesh((8, 0, 0), &mesh(4, 12), 0);
    assert!(matches!(s.drain_pending_chunk_uploads(), Some(PendingStep::Skip)));
    assert!(matches!(s.drain_pending_chunk_uploads(), Some(PendingStep::Upload(c)) if c.key == (9, 0, 0)));
    assert!(s.drain_pending_chunk_uploads().is_none());
    assert_eq!(s.draw_indexed_oit_mesh(), vec![draw(Some(8), 0, 12)]);
    assert_eq!(s.opaque_index_count(), 9 * 6 + 12);
    assert_eq!(s.chunk_grid_origin, (3, 3, 3));
    assert_eq!(s.route, MeshRoute::CpuChunked);
}

#[test]
fn deferred_chunks_are_queued() {
    let mut s = OpaqueScene::new();
    s.upload_prepared_opaque(PreparedOpaqueUpload::ChunkedDeferred { chunk_origin: (1, 1, 1) });
    assert_eq!(s.route.name(), "cpu_chunked_deferred");
    let mut inbox: VecDeque<ChunkMesh> = VecDeque::new();
    inbox.push_back(chunk(2, 3, 0));
    s.enqueue_chunk_uploads(&mut inbox);
    assert!(inbox.is_empty() && s.pending.len() == 1);
    s.set_spatial_mesh_cache();
    assert!(s.has_spatial_mesh_cache());
    s.invalidate_spatial_mesh_cache();
    assert!(!s.has_spatial_mesh_cache());
    s.upload_prepared_opaque(PreparedOpaqueUpload::Empty);
    assert!(!s.has_pending_chunk_uploads() && s.draw_indexed_mesh_all().is_empty());
}

#[test]
fn refilling_keeps_buffers_with_room() {
    let mut s = OpaqueScene::new();
    s.upload_cpu_mesh_chunked_full(&Some(((0, 0, 0), vec![chunk(0, 12, 12)])));
    let room = s.chunks.get((0, 0, 0)).unwrap();
    assert!(s.upload_or_replace_chunk_mesh((0, 0, 0), &mesh(2, 6), 3));
    let refilled = s.chunks.get((0, 0, 0)).unwrap();
    assert_eq!(refilled.index_bytes, room.index_bytes);
    assert_eq!((refilled.opaque_index_count, refilled.transparent_index_count), (3, 3));
    assert!(s.upload_or_replace_chunk_mesh((0, 0, 0), &mesh(2, 6), 3));
    assert_eq!(s.chunks.get((0, 0, 0)), Some(refilled));
    assert!(!s.upload_or_replace_chunk_mesh((0, 0, 0), &mesh(40, 60), 60));
    assert!(s.upload_or_replace_chunk_mesh_from_gpu_scratch((0, 0, 0), 4, 6));
    let kernel = s.chunks.get((0, 0, 0)).unwrap();
    assert!(!kernel.partitioned && kernel.transparent_index_count == 0);
    let all = vec![draw(Some(0), 0, 6)];
    assert_eq!(s.draw_indexed_mesh(), all);
    assert_eq!(s.draw_indexed_oit_mesh(), all);
    assert_eq!(s.draw_indexed_mesh_all(), all);
    s.remove_chunk((0, 0, 0));
    assert!(s.chunks.get((0, 0, 0)).is_none());
    s.upload_cpu_mesh_chunked_full(&None);
    assert!(!s.chunked);
}

#[test]
fn nothing_visible_is_an_error() {
    let mut s = OpaqueScene::new();
    s.upload_mesh(&mesh(4, 6), 6);
    assert_eq!(s.apply_no_visible_voxels(true), Err(EmptyVoxels));
    assert_eq!(s.route.name(), "all_hidden");
    assert_eq!(s.opaque_index_count(), 0);
    assert!(!s.apply_gpu_greedy_pack(Some((4, 0))) && !s.apply_gpu_greedy_pack(None));
    assert!(s.apply_gpu_greedy_pack(Some((4, 6))));
    assert_eq!((s.vertex_bytes, s.route), (Some(224), MeshRoute::GpuGreedy));
}

#[test]
fn rebuild_routes() {
    let one = [voxel(0, 1), voxel(1, 1)];
    let two = [voxel(0, 1), voxel(1, 2)];
    let still = [ObjectState { visible: true, transformed: false }];
    let moved = [ObjectState { visible: true, transformed: true }];
    let hidden = [ObjectState { visible: false, transformed: true }];
    let start = |n, work: &[Voxel], objects: &[ObjectState], bounded, forced| {
        compute_greedy_rebuild_cpu(n, work, objects, bounded, bounded, forced)
    };
    assert_eq!(start(0, &[], &still, true, false), RebuildStart::NoVoxels);
    assert_eq!(start(2, &[], &still, true, false), RebuildStart::AllHidden);
    assert_eq!(
        start(2, &two, &still, true, false),
        RebuildStart::Single(MeshRoute::CpuMultiObject),
    );
    assert_eq!(
        start(2, &one, &moved, true, false),
        RebuildStart::Single(MeshRoute::CpuObjectTransform),
    );
    assert_eq!(start(2, &one, &still, false, false), RebuildStart::NoBounds);
    assert_eq!(start(2, &one, &still, true, true), RebuildStart::Fallback);
    assert_eq!(start(2, &one, &hidden, true, false), RebuildStart::Pack);
    assert!(multi_object(&two) && !multi_object(&one) && !multi_object(&[]));
    assert!(transformed_object(&moved) && !transformed_object(&hidden));
    assert_eq!(rebuild_packed(None), RebuildPacked::Fallback);
    assert_eq!(rebuild_packed(Some(0)), RebuildPacked::Nothing(MeshRoute::GpuNoHeaders));
    assert_eq!(rebuild_packed(Some(2)), RebuildPacked::Kernel);
    assert_eq!(
        cpu_mesh_fallback_prepare(&[], 1),
        FallbackStart::Nothing(MeshRoute::CpuEmpty),
    );
    assert_eq!(cpu_mesh_fallback_prepare(&one, 2), FallbackStart::Chunks);
    assert_eq!(cpu_mesh_fallback_prepare(&one, 3), FallbackStart::Single(MeshRoute::Cpu));
    assert_eq!(cpu_mesh_fallback_prepare(&two, 2), FallbackStart::Single(MeshRoute::Cpu));
    assert_eq!(fallback_chunks(None), FallbackChunks::Nothing(MeshRoute::CpuChunkedNone));
    assert_eq!(fallback_chunks(Some(0)), FallbackChunks::Nothing(MeshRoute::CpuChunkedEmpty));
    assert_eq!(fallback_chunks(Some(1)), FallbackChunks::Show(MeshRoute::CpuChunked));
}

#[test]
fn rebuild_is_applied() {
    let mut s = OpaqueScene::new();
    assert!(matches!(
        s.apply_prepared_greedy_rebuild(PreparedGreedyRebuild::NoVoxels),
        Err(EmptyVoxels),
    ));
    let r = s.apply_prepared_greedy_rebuild(PreparedGreedyRebuild::Opaque {
        opaque: PreparedOpaqueUpload::Single { mesh: mesh(4, 6), split: 6 },
        last_route: MeshRoute::CpuMultiObject,
    });
    assert!(matches!(r, Ok(RebuildApplied::Upload(now)) if now.is_empty()));
    assert_eq!((s.route, s.opaque_index_count()), (MeshRoute::CpuMultiObject, 6));
    assert!(matches!(
        s.apply_prepared_greedy_rebuild(PreparedGreedyRebuild::GpuGreedyPack),
        Ok(RebuildApplied::RunKernel),
    ));
    assert!(matches!(
        s.apply_prepared_greedy_rebuild(PreparedGreedyRebuild::AllHidden),
        Err(EmptyVoxels),
    ));
    s.cpu_mesh_fallback(&CpuMesh::Single { mesh: mesh(4, 6), split: 0 });
    assert_eq!(s.route, MeshRoute::Cpu);
    s.cpu_mesh_fallback(&CpuMesh::Chunks(Some(((2, 2, 2), vec![chunk(0, 6, 6)]))));
    assert_eq!((s.route, s.chunk_grid_origin), (MeshRoute::CpuChunked, (2, 2, 2)));
    s.invalidate_spatial_mesh_cache();
    assert_eq!(s.remesh_opaque_chunks(Some((2, 2, 2))), RemeshStart::Chunks);
    assert!(s.has_spatial_mesh_cache());
    assert_eq!(s.remesh_opaque_chunks(Some((2, 2, 3))), RemeshStart::Everything);
    assert_eq!(remesh_start(None, (0, 0, 0)), RemeshStart::Nothing);
    assert_eq!(s.apply_kernel_chunk((5, 0, 0), Some((4, 6))), ChunkOutcome::FromKernel(4, 6));
    assert_eq!(s.opaque_index_count(), 12);
    assert_eq!(s.apply_meshed_chunk(&chunk(5, 0, 0)), ChunkOutcome::Remove);
    assert_eq!(s.opaque_index_count(), 6);
    assert_eq!(s.apply_kernel_chunk((0, 0, 0), None), ChunkOutcome::MeshWithout);
    assert_eq!(s.opaque_index_count(), 6);
    s.cpu_mesh_fallback(&CpuMesh::Nothing);
    assert_eq!((s.route, s.opaque_index_count()), (MeshRoute::CpuEmpty, 0));
}

#[test]
fn edits_reach_the_spatial_cache() {
    let mut s = OpaqueScene::new();
    let (a, b) = (voxel(1, 0), voxel(2, 0));
    assert_eq!(s.apply_spatial_cache_edit(&VoxelEditDelta::Added(a)), None);
    s.set_spatial_mesh_cache();
    assert_eq!(s.apply_spatial_cache_edit(&VoxelEditDelta::Added(a)), Some(SpatialEdit::Add(a)));
    assert_eq!(
        s.apply_spatial_cache_edit(&VoxelEditDelta::Removed { voxel: b }),
        Some(SpatialEdit::Remove { x: 2, y: 0, z: 0 }),
    );
    assert_eq!(
        s.apply_spatial_cache_edit(&VoxelEditDelta::Painted { before: a, after: b }),
        Some(SpatialEdit::Paint(b)),
    );
}

#[test]
fn chunks_choose_their_mesher() {
    let one = [voxel(0, 1)];
    assert!(chunk_uses_kernel(true, &one, Some(1)));
    assert!(!chunk_uses_kernel(false, &one, Some(1)));
    assert!(!chunk_uses_kernel(true, &[], Some(1)));
    assert!(!chunk_uses_kernel(true, &one, Some(0)));
    assert!(!chunk_uses_kernel(true, &one, None));
    assert_eq!(chunk_after_kernel(Some((0, 6))), ChunkOutcome::Remove);
    assert_eq!(chunk_after_mesh(3), ChunkOutcome::FromMesh);
    assert!(progress_due(40, 0, 1, 9) && !progress_due(39, 0, 1, 9) && progress_due(1, 0, 9, 9));
    let core = chunk_core(&[voxel(5, 0), voxel(-1, 0), voxel(2, 0)]);
    assert_eq!(core.iter().map(|v| v.x).collect::<Vec<_>>(), vec![-1, 2, 5]);
}

#[test]
fn line_buffers_are_reused_for_their_size() {
    let mut b = None;
    assert_eq!(upload_buf(&mut b, 12), BufferAction::Create);
    assert_eq!(b.unwrap().vertices, 2);
    assert_eq!(upload_buf(&mut b, 12), BufferAction::Rewrite);
    assert_eq!(upload_buf(&mut b, 18), BufferAction::Create);
    assert_eq!(upload_buf(&mut b, 7), BufferAction::Drop);
    assert!(b.is_none());
}

#[test]
fn overlays_draw_what_was_uploaded() {
    let mut o = Overlays::new();
    assert!(o.draw_gizmo().is_empty() && o.draw_grid_border_lines().is_empty());
    o.upload_gizmo_lines(12);
    assert!(o.draw_gizmo().is_empty());
    o.upload_gizmo_lines(18);
    o.set_gizmo_on_top(true);
    let top: Vec<_> = o.draw_gizmo().iter().map(|d| d.pipeline).collect();
    assert_eq!(top, vec![PipelineId::GizmoLinesAlways]);
    o.set_gizmo_on_top(false);
    let ghost: Vec<_> = o.draw_gizmo().iter().map(|d| d.pipeline).collect();
    assert_eq!(ghost.len(), 2);
    assert!(ghost.contains(&PipelineId::GizmoLinesOccluded));
    o.upload_grid_border_lines(24, 8);
    assert_eq!(o.grid_border, Some(BorderBuffers { lanes: 24, indices: 8 }));
    assert_eq!(o.draw_grid_border_lines()[0].count, 8);
    o.clear_grid_border_lines();
    assert!(o.draw_grid_border_lines().is_empty());
    o.upload_selection_overlay_solid(6);
    assert_eq!(o.draw_indexed_selection_overlay_solid()[0].geometry, Geometry::SelectionSolid);
    o.upload_selection_overlay_lines(18);
    assert_eq!(o.draw_selection_overlay_lines()[0].count, 3);
    o.clear_selection_overlay();
    assert!(o.draw_indexed_selection_overlay_solid().is_empty());
    o.upload_ping_mesh(6, 8);
    assert!(!o.draw_indexed_ping().is_empty());
    o.upload_ping_wave_lines(18);
    assert_eq!(o.draw_ping_wave_lines()[0].count, 3);
    o.clear_ping_mesh();
    assert!(o.draw_indexed_ping().is_empty());
}

#[test]
fn cleared_preview_draws_nothing() {
    let sizes = PreviewSizes {
        solid_instances: 2,
        wire_instances: 2,
        solid_indices: 36,
        wire_indices: 24,
        extra_lanes: 14,
        extra_indices: 3,
        extra_wire_lanes: 14,
        extra_wire_indices: 2,
    };
    let mut o = Overlays::new();
    o.upload_preview_mesh_instanced(&sizes);
    let inst = o.draw_indexed_preview();
    assert!(inst.iter().any(|d| d.geometry == Geometry::PreviewSolid && d.instances == 2));
    assert!(inst.iter().any(|d| d.geometry == Geometry::PreviewExtra && d.count == 3));
    o.upload_gen_preview_mesh_instanced(&sizes);
    assert!(o.draw_indexed_preview().iter().any(|d| d.geometry == Geometry::GenSolid));
    o.clear_preview_mesh();
    assert!(o.draw_indexed_preview().is_empty());
    o.upload_preview_mesh(6, 4);
    assert!(!o.draw_indexed_preview().is_empty());
}

#[test]
fn samples_gather_until_something_moves() {
    let mut rt = RaytraceState::new();
    rt.set_raytrace_mode(true);
    rt.advance();
    rt.advance();
    assert_eq!((rt.sample_n, rt.flip), (2, false));
    let u = rt.rt_uniform();
    assert_eq!(u.frame_seed, 2u32.wrapping_mul(2654435761).wrapping_add(1));
    assert_eq!((u.sample_n, u.fast_preview), (2, 0));
    rt.note_camera(true);
    assert_eq!(rt.sample_n, 0);
    assert!(rt.fast_preview);
    rt.set_rt_surface_mode(2);
    assert_eq!(rt.rt_uniform().surface_mode, 2);
    let mut seeds: Vec<u32> = Vec::new();
    for n in 0..100 {
        let seed = RaytraceState { sample_n: n, ..rt }.rt_uniform().frame_seed;
        assert!(!seeds.contains(&seed));
        seeds.push(seed);
    }
}

#[test]
fn viewport_stays_within_the_surface() {
    let mut s = SurfaceState::new(1, Some(2), false);
    assert_eq!(s.surface_pixel_size(), (800, 600));
    assert!(s.resize(1000, 500, 100, 50, 300, 200));
    assert_eq!(s.viewport_size(), (300, 200));
    assert!(s.resize(100, 100, 90, 200, 50, 0));
    assert_eq!((s.viewport_x, s.viewport_y, s.viewport_size()), (90, 99, (10, 1)));
    let before = s;
    assert!(!s.resize(0, 100, 0, 0, 1, 1));
    assert_eq!(s, before);
    assert!(s.begin_frame(120, 0));
    assert_eq!(s.surface_pixel_size(), (120, 1));
    assert!(!s.begin_frame(120, 0));
    assert_eq!(s.target_shape().surface_format, 1);
}

#[test]
fn surface_switches() {
    let mut s = SurfaceState::new(1, Some(2), false);
    assert!(s.hdr_available() && s.takes_sdr_overlays());
    assert!(s.set_hdr_output(true) && !s.set_hdr_output(true));
    assert!(s.format == 2 && !s.takes_sdr_overlays());
    assert!(s.set_hdr_output(false) && s.format == 1);
    let mut plain = SurfaceState::new(1, None, false);
    assert!(!plain.set_hdr_output(true) && plain.format == 1);
    s.set_tone_mapping_mode(99);
    assert_eq!(s.tone_mode, 6);
    s.set_start_screen_transparent(false);
    assert!(!s.start_screen_transparent);
    assert!(s.set_auto_exposure(true) && !s.set_auto_exposure(true));
    assert_eq!(s.try_collect_meter_luminance(MeterEvent::Ready), MeterAction::Nothing);
    assert!(s.begin_meter_readback() && !s.begin_meter_readback());
    assert_eq!(s.try_collect_meter_luminance(MeterEvent::NotYet), MeterAction::Nothing);
    assert!(s.meter_pending);
    assert_eq!(s.try_collect_meter_luminance(MeterEvent::Ready), MeterAction::Adapt);
    s.begin_meter_readback();
    assert_eq!(s.try_collect_meter_luminance(MeterEvent::Failed), MeterAction::Release);
    assert!(!s.meter_pending);
}

#[test]
fn surface_choices() {
    let f = |srgb, rgba16_float| OfferedFormat { srgb, rgba16_float };
    let offered = [f(false, false), f(false, true), f(true, false), f(true, false)];
    assert_eq!(choose_surface_format(&offered), 2);
    assert_eq!(choose_surface_format(&offered[..2]), 0);
    assert_eq!(choose_hdr_format(&offered), Some(1));
    assert_eq!(choose_hdr_format(&offered[2..]), None);
    let modes = [AlphaMode::Inherit, AlphaMode::Opaque, AlphaMode::PostMultiplied];
    assert_eq!(choose_alpha_mode(&modes, false), AlphaMode::PostMultiplied);
    assert_eq!(choose_alpha_mode(&modes, true), AlphaMode::Opaque);
    assert_eq!(choose_alpha_mode(&[AlphaMode::Auto], false), AlphaMode::Auto);
}

#[test]
fn brick_is_patched_while_its_layout_stays() {
    let layout = BrickLayout { origin: (1, 2, 3), dims: (4, 5, 6) };
    let mut b = BrickState::new();
    assert_eq!(b.cell_count, 1);
    b.upload_scene_data_from_brick(layout, 120);
    assert_eq!(b.cell_count, 120);
    assert!(matches!(
        b.upload_scene_data(&Some(layout), &Some(Some(7))),
        BrickAction::Patch(o) if o == vec![28],
    ));
    assert!(matches!(b.upload_scene_data(&Some(layout), &Some(None)), BrickAction::Rebuild));
    assert!(matches!(b.upload_scene_data(&Some(layout), &None), BrickAction::Rebuild));
    let other = BrickLayout { dims: (4, 5, 7), ..layout };
    assert!(matches!(
        b.upload_scene_data_patches(&Some(other), &[Some(1)]),
        BrickAction::Rebuild,
    ));
    assert!(matches!(
        b.upload_scene_data_patches(&Some(layout), &[Some(1), Some(0)]),
        BrickAction::Patch(o) if o == vec![4, 0],
    ));
    assert!(matches!(
        b.upload_scene_data_patches(&Some(layout), &[Some(1), None]),
        BrickAction::Rebuild,
    ));
    let mut rt = RaytraceState { sample_n: 9, ..RaytraceState::new() };
    settle_samples(&mut rt, true, true);
    assert_eq!(rt.sample_n, 9);
    settle_samples(&mut rt, false, true);
    assert_eq!(rt.sample_n, 0);
}

#[test]
fn viewer_draws_and_counts_samples() {
    let mut v = WgpuViewer::new(1, None, false);
    assert_eq!(v.opaque_draws().len(), 1);
    assert!(matches!(v.opaque_draws()[0], SceneDraw::Background(PipelineId::StartScreenBg)));
    v.opaque.upload_mesh(&mesh(4, 6), 6);
    v.overlays.upload_selection_overlay_solid(6);
    assert_eq!(v.overlay_draws().len(), 2);
    assert_eq!(v.opaque_draws().len(), 4);
    v.raytrace.set_raytrace_mode(true);
    v.render();
    v.render();
    assert_eq!(v.raytrace.sample_n, 2);
    assert!(v.apply_lighting_settings(true));
    assert_eq!(v.raytrace.sample_n, 0);
    assert!(v.frame_inputs().auto_exposure);
    v.render();
    v.set_mood_params();
    assert!(v.raytrace.fast_preview && v.raytrace.sample_n == 0);
    assert!(v.resize(10, 10, 0, 0, 10, 10));
    assert_eq!(v.surface.viewport_size(), (10, 10));
    let layout = BrickLayout { origin: (0, 0, 0), dims: (1, 1, 1) };
    v.raytrace.sample_n = 7;
    v.upload_scene_data_from_brick(layout, 1);
    assert_eq!((v.raytrace.sample_n, v.brick.cell_count), (0, 1));
    assert!(matches!(
        v.upload_scene_data(&Some(layout), &Some(Some(0))),
        BrickAction::Patch(_),
    ));
    assert!(matches!(v.upload_scene_data_patches(&None, &[]), BrickAction::Rebuild));
}
