use voxel_view::render::bind_groups::{
    build_bloom_pyramid_bind_groups, group_layout, group_resources, rebuild_bind_groups, BufferId,
    GroupId, Resource,
};
use voxel_view::render::frame::{
    copy_ends, pass_colors, pass_depth, pass_groups, pass_pipeline, render, CopyId, FrameInputs,
    FrameStep, PassId,
};
use voxel_view::render::layouts::{create_bind_group_layouts, BindKind, LayoutId, Stages};
use voxel_view::render::mesh_buffers::{
    buffer_bytes, interleaved_for_mascot, interleaved_from_mesh, interleaved_from_prototype,
    mascot_vertex_bytes, mesh_vertex_bytes, prototype_vertex_bytes, MeshBuffers, PreviewPrototype,
    LANE_ONE,
};
use voxel_view::render::pipelines::{
    fragment_entry, pipeline_state, vertex_entry, Blend, DepthCompare, PipelineId, VertexInput,
};
use voxel_view::render::textures::{
    texture_spec, TargetShape, TexelFormat, TextureId, BLOOM_LEVELS, SHADOW_MAP_SIZE,
};
use voxel_view::render::vertex_layout::{
    mascot_vertex_layout, preview_instance_layout, preview_proto_vertex_layout, vertex_layout,
    vertex_layout_collab_lines, VertexBufferLayout, MASCOT_VERTEX_STRIDE, OPAQUE_VERTEX_STRIDE,
};

const SHAPE: TargetShape = TargetShape {
    surface_width: 1000,
    surface_height: 700,
    viewport_width: 640,
    viewport_height: 9,
    surface_format: 3,
};

fn inputs() -> FrameInputs {
    FrameInputs {
        raytrace: false,
        flip: false,
        fast_preview: false,
        start_screen: false,
        auto_exposure: false,
        gizmo_label: false,
        names: false,
        bubbles: false,
    }
}

/// Textures that a step samples or copies from, and those that it writes.
fn touched(step: FrameStep) -> (Vec<TextureId>, Vec<TextureId>) {
    match step {
        FrameStep::Pass(p) => {
            let mut read = Vec::new();
            for g in pass_groups(p) {
                for r in group_resources(g) {
                    if let Resource::Texture(t) = r {
                        read.push(t);
                    }
                }
            }
            let mut written: Vec<TextureId> = pass_colors(p).iter().map(|c| c.texture).collect();
            if let Some(d) = pass_depth(p) {
                written.push(d.texture);
            }
            (read, written)
        }
        FrameStep::Copy(c) => {
            let (from, to) = copy_ends(c);
            (vec![from], vec![to])
        }
        FrameStep::CopyMeter => (vec![TextureId::Meter], vec![]),
        _ => (vec![], vec![]),
    }
}

#[test]
fn pyramid_halves_down_to_one_texel() {
    let sizes: Vec<(u32, u32)> = (0..BLOOM_LEVELS)
        .map(|i| {
            let t = texture_spec(TextureId::PyramidA(i), &SHAPE);
            (t.width, t.height)
        })
        .collect();
    assert_eq!(sizes, vec![(320, 4), (160, 2), (80, 1), (40, 1), (20, 1)]);
}

#[test]
fn textures_are_made_for_their_use() {
    let shadow = texture_spec(TextureId::Shadow, &SHAPE);
    assert_eq!((shadow.width, shadow.format), (SHADOW_MAP_SIZE, TexelFormat::Depth32Float));
    let present = texture_spec(TextureId::Present, &SHAPE);
    assert_eq!(present.format, TexelFormat::Surface(3));
    assert!(present.usage.copy_from && !present.usage.sample);
    let preview = texture_spec(TextureId::RtPreview, &SHAPE);
    assert_eq!((preview.width, preview.height), (320, 4));
    let meter = texture_spec(TextureId::Meter, &SHAPE);
    assert_eq!((meter.width, meter.height, meter.format), (1, 1, TexelFormat::R32Float));
    let tiny = TargetShape { viewport_width: 0, ..SHAPE };
    assert_eq!(texture_spec(TextureId::Hdr, &tiny).width, 1);
    let swap = texture_spec(TextureId::Swapchain, &SHAPE);
    assert_eq!((swap.width, swap.height), (1000, 700));
}

fn packed(l: &VertexBufferLayout) -> bool {
    let mut at = 0;
    for a in &l.attributes {
        if a.offset != at {
            return false;
        }
        at += 4 * a.lanes as u64;
    }
    at == l.array_stride
}

#[test]
fn vertices_are_packed() {
    for l in [
        vertex_layout(),
        mascot_vertex_layout(),
        preview_proto_vertex_layout(),
        preview_instance_layout(),
        vertex_layout_collab_lines(),
    ] {
        assert!(packed(&l));
    }
    assert_eq!(vertex_layout().array_stride, OPAQUE_VERTEX_STRIDE);
    assert_eq!(mascot_vertex_layout().array_stride, MASCOT_VERTEX_STRIDE);
    assert_eq!(preview_instance_layout().array_stride, 80);
    assert!(preview_instance_layout().per_instance && !vertex_layout().per_instance);
    assert_eq!(vertex_layout().attributes[3].offset, 36);
}

/// Lanes numbered by where they stand: hundreds for the list, the rest within it.
fn numbered(vertices: u32) -> MeshBuffers {
    let lanes = |base: u32, n: u32| (0..n).map(|i| base + i).collect::<Vec<u32>>();
    MeshBuffers {
        positions: lanes(100, 3 * vertices),
        normals: lanes(200, 3 * vertices),
        colors: lanes(300, 3 * vertices),
        mat_kind: lanes(400, vertices),
        ao: lanes(500, vertices),
        emission_tint: lanes(600, 3 * vertices),
        indices: lanes(0, vertices),
    }
}

#[test]
fn opaque_vertices_interleave() {
    let mesh = numbered(2);
    assert_eq!(mesh.vertex_count(), 2);
    assert_eq!(
        interleaved_from_mesh(&mesh),
        vec![
            100, 101, 102, 200, 201, 202, 300, 301, 302, 400, 500, 600, 601, 602, 103, 104, 105,
            203, 204, 205, 303, 304, 305, 401, 501, 603, 604, 605,
        ],
    );
    let bare = MeshBuffers { ao: vec![], emission_tint: vec![], ..numbered(1) };
    assert_eq!(interleaved_from_mesh(&bare)[10..], [LANE_ONE, 0, 0, 0]);
    assert_eq!(f32::from_bits(LANE_ONE), 1.0);
    assert!(interleaved_from_mesh(&MeshBuffers::empty()).is_empty());
}

#[test]
fn mascot_vertices_share_a_centre_by_fours() {
    let out = interleaved_for_mascot(&numbered(5), &vec![7, 8, 9]);
    assert_eq!(out.len(), 5 * 17);
    assert_eq!(out[14..17], [7, 8, 9]);
    assert_eq!(out[3 * 17 + 14..4 * 17], [7, 8, 9]);
    assert_eq!(out[4 * 17 + 14..], [0, 0, 0]);
}

#[test]
fn buffers_are_the_bytes_of_their_lanes() {
    let lanes = [0x0102_0304u32, 1.5f32.to_bits()];
    let mut expected = Vec::new();
    for l in lanes {
        expected.extend_from_slice(&l.to_ne_bytes());
    }
    assert_eq!(buffer_bytes(&lanes), expected);
    assert_eq!(mesh_vertex_bytes(&numbered(3)), buffer_bytes(&interleaved_from_mesh(&numbered(3))));
    let proto =
        PreviewPrototype { positions: vec![1, 2, 3], normals: vec![4, 5, 6], indices: vec![0] };
    assert_eq!(interleaved_from_prototype(&proto), vec![1, 2, 3, 4, 5, 6]);
    assert_eq!(prototype_vertex_bytes(&proto).len(), 24);
    assert_eq!(
        mascot_vertex_bytes(&numbered(4), &vec![1, 2, 3]).len(),
        4 * MASCOT_VERTEX_STRIDE as usize,
    );
}

fn kind(r: Resource) -> Option<BindKind> {
    match r {
        Resource::Buffer(b) => Some(if b == BufferId::Global || b == BufferId::Brick {
            BindKind::StorageRead
        } else {
            BindKind::Uniform
        }),
        Resource::Texture(t) => {
            Some(if texture_spec(t, &SHAPE).format == TexelFormat::Depth32Float {
                BindKind::DepthTexture
            } else {
                BindKind::FloatTexture
            })
        }
        Resource::Sampler(_) => None,
    }
}

#[test]
fn groups_fit_their_layouts() {
    let rebuilt = rebuild_bind_groups();
    for g in &rebuilt {
        let entries = create_bind_group_layouts(group_layout(*g));
        let resources = group_resources(*g);
        assert_eq!(entries.len(), resources.len());
        for (i, r) in resources.iter().enumerate() {
            assert_eq!(entries[i].binding, i as u32);
            if let Some(k) = kind(*r) {
                assert_eq!(entries[i].kind, k);
            }
        }
    }
    for g in build_bloom_pyramid_bind_groups() {
        assert!(rebuilt.contains(&g));
    }
    assert!(rebuilt.contains(&GroupId::RtAccum(true)) && rebuilt.contains(&GroupId::RtPreview));
    assert!(group_resources(GroupId::RtAccum(true))
        .contains(&Resource::Texture(TextureId::RtAccum(false))));
    let scene = create_bind_group_layouts(LayoutId::Scene0);
    assert_eq!((scene.len(), scene[3].stages), (4, Stages::Fragment));
}

#[test]
fn ghosts_test_for_opposite_depths() {
    let behind = pipeline_state(PipelineId::PreviewInstOccluded, 1, 2);
    let before = pipeline_state(PipelineId::PreviewInstFront, 1, 2);
    assert_eq!(behind.depth.unwrap().compare, DepthCompare::Greater);
    assert_eq!(before.depth.unwrap().compare, DepthCompare::LessEqual);
    assert_eq!(behind.target0, before.target0);
    assert_eq!(before.target0.unwrap().blend, Blend::Preview);
    assert!(!before.target1.unwrap().write);
}

#[test]
fn pipelines_follow_the_surface() {
    let composite = pipeline_state(PipelineId::Composite, 7, 5);
    assert_eq!(composite.target0.unwrap().format, TexelFormat::Surface(7));
    let mascot = pipeline_state(PipelineId::Mascot, 7, 5);
    assert_eq!(mascot.target0.unwrap().format, TexelFormat::Surface(5));
    assert_eq!(mascot.vertices, VertexInput::Mascot);
    let shadow = pipeline_state(PipelineId::Shadow, 7, 5);
    assert!(shadow.target0.is_none() && fragment_entry(PipelineId::Shadow).is_none());
    assert!(!vertex_entry(PipelineId::Shadow).is_empty());
}

#[test]
fn plain_frame_in_order() {
    let steps = render(&inputs());
    assert_eq!(
        steps[..8],
        [
            FrameStep::Pass(PassId::Shadow),
            FrameStep::Pass(PassId::Opaque),
            FrameStep::Copy(CopyId::OpaqueToHdr),
            FrameStep::Copy(CopyId::DepthToSnapshot),
            FrameStep::Pass(PassId::Ssr),
            FrameStep::Pass(PassId::OitAccum),
            FrameStep::Pass(PassId::OitComposite),
            FrameStep::Pass(PassId::BloomExtract),
        ],
    );
    assert_eq!(
        steps[steps.len() - 5..],
        [
            FrameStep::UploadComposite,
            FrameStep::Pass(PassId::Composite),
            FrameStep::Copy(CopyId::PresentToSwapchain),
            FrameStep::Submit,
            FrameStep::Present,
        ],
    );
    assert_eq!(steps.len(), 7 + 31 + 5);
}

#[test]
fn traced_frame_in_order() {
    let traced = FrameInputs { raytrace: true, flip: true, ..inputs() };
    assert_eq!(
        render(&traced)[..4],
        [
            FrameStep::UploadRtUniform,
            FrameStep::Pass(PassId::Raytrace(true)),
            FrameStep::Copy(CopyId::RtToHdr(true)),
            FrameStep::Pass(PassId::RtOverlay),
        ],
    );
    let fast = FrameInputs { fast_preview: true, ..traced };
    assert_eq!(render(&fast)[1], FrameStep::Pass(PassId::RaytracePreview(true)));
    assert_eq!(render(&fast)[2], FrameStep::Pass(PassId::RaytraceUpscale(true)));
}

#[test]
fn optional_steps_come_when_asked_for() {
    let all = FrameInputs {
        start_screen: true,
        auto_exposure: true,
        gizmo_label: true,
        names: true,
        bubbles: true,
        ..inputs()
    };
    let steps = render(&all);
    let at = |s: FrameStep| steps.iter().position(|x| *x == s).unwrap();
    assert!(at(FrameStep::Pass(PassId::Meter)) < at(FrameStep::CopyMeter));
    assert!(at(FrameStep::Pass(PassId::GizmoLabel)) < at(FrameStep::Pass(PassId::NameLabels)));
    assert!(at(FrameStep::Logo) < at(FrameStep::Mascots));
    assert!(at(FrameStep::Mascots) < at(FrameStep::SpeechBubbles));
    assert_eq!(steps[steps.len() - 2], FrameStep::ReadMeter);
    let bubbles = render(&FrameInputs { bubbles: true, ..inputs() });
    assert!(bubbles.contains(&FrameStep::SpeechBubbles) && !bubbles.contains(&FrameStep::Logo));
}

#[test]
fn no_step_reads_what_it_writes_or_too_early() {
    for bits in 0..256u32 {
        let on = |k: u32| bits & (1 << k) != 0;
        let f = FrameInputs {
            raytrace: on(0),
            flip: on(1),
            fast_preview: on(2),
            start_screen: on(3),
            auto_exposure: on(4),
            gizmo_label: on(5),
            names: on(6),
            bubbles: on(7),
        };
        let mut written: Vec<TextureId> = Vec::new();
        if f.raytrace {
            written.push(TextureId::RtAccum(!f.flip));
            written.push(TextureId::Shadow);
        }
        for step in render(&f) {
            let (read, write) = touched(step);
            for t in &read {
                assert!(written.contains(t), "{:?} reads {:?}", step, t);
                assert!(!write.contains(t), "{:?} reads and writes {:?}", step, t);
            }
            written.extend(write);
        }
    }
}

#[test]
fn pipelines_have_the_targets_of_their_passes() {
    for step in render(&FrameInputs { auto_exposure: true, ..inputs() }) {
        if let FrameStep::Pass(p) = step {
            if let Some(pl) = pass_pipeline(p, false) {
                let state = pipeline_state(pl, SHAPE.surface_format, SHAPE.surface_format);
                let colors = pass_colors(p);
                assert_eq!(state.target0.is_some(), colors.len() >= 1);
                assert_eq!(state.target1.is_some(), colors.len() >= 2);
                if let Some(t) = state.target0 {
                    assert_eq!(t.format, texture_spec(colors[0].texture, &SHAPE).format);
                }
                assert_eq!(state.depth.is_some(), pass_depth(p).is_some());
                assert_eq!(group_layout(pass_groups(p)[0]), state.group0);
            }
        }
    }
    assert_eq!(pass_pipeline(PassId::Opaque, true), Some(PipelineId::StartScreenBg));
    assert_eq!(pass_pipeline(PassId::Opaque, false), Some(PipelineId::Sky));
}

#[test]
fn copies_stay_within_a_format() {
    for c in [
        CopyId::RtToHdr(false),
        CopyId::RtToHdr(true),
        CopyId::OpaqueToHdr,
        CopyId::DepthToSnapshot,
        CopyId::PresentToSwapchain,
    ] {
        let (from, to) = copy_ends(c);
        let (a, b) = (texture_spec(from, &SHAPE), texture_spec(to, &SHAPE));
        assert_eq!(a.format, b.format);
        assert!(a.usage.copy_from && b.usage.copy_to);
    }
}
