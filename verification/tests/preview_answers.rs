use voxel_view::preview::answers::{
    answer_cell, answer_cells, answer_colored_cells, answer_metaballs, answer_polygon,
    answer_skeleton, answer_stamp, answer_stroke,
};
use voxel_view::preview::cells::ColoredCell;
use voxel_view::preview::display::PreviewPointer;
use voxel_view::preview::hover_keys::{
    cell_key, clipboard_key, generator_key, metaball_key, skeleton_key, stroke_key,
};
use voxel_view::preview::mode::{BrushShape, EditTool, Generator, PreviewMode};
use voxel_view::preview::plan::{
    context_of, prepare_preview_mesh, MetaballStep, PreviewAsk, PreviewLook, PreviewMesh,
    PreviewMeshPrepared, PreviewNext, PreviewStart, SkeletonStep, StrokeStep,
};
use voxel_view::preview::session_keys::{
    BoneJoint, BoneSession, ClipEntry, SquishyMode, SquishySession,
};
use voxel_view::preview::settings::{
    PreviewFacts, PreviewHoverContext, StrokeAux, StrokeMode, SyncPreviewInput,
};
use voxel_view::smooth_mesh::whole_model::voxel_map;

fn hover() -> PreviewHoverContext {
    PreviewHoverContext {
        brush_radius: 0,
        brush_shape: BrushShape::Cube,
        spray_density: 0,
        stroke_mode: StrokeMode { number: 0, polygon: false },
        plane_axis: 0,
        stroke_aux: StrokeAux { polygon_vertices: Vec::new(), text: None },
        color: 0,
        palette: Vec::new(),
        paint_color_distrib: None,
        material: String::new(),
        match_material: false,
        use_brush_preview: false,
        generator_kind: None,
        generator_rope_first_voxel: None,
        generator_rope_sag: 0,
        generator_rope_tension: 0,
        generator_rope_gravity_direction: String::new(),
        generator_cloth_pins: Vec::new(),
        generator_cloth_tension: 0,
        generator_cloth_gravity_direction: String::new(),
        generator_cloth_gravity_scale: 0,
        generator_cloth_stiffness_scale: 0,
        generator_cloth_iterations: 0,
        generator_cloth_constraint_passes: 0,
        generator_rock_size: 0,
        generator_rock_roughness: 0,
        generator_rock_seed: 0,
        generator_rock_count: 0,
        generator_rock_cluster_radius: 0,
        generator_rock_sink_direction: 0,
        generator_rock_sink_amount: 0,
        generator_grass_radius: 0,
        generator_grass_density: 0,
        generator_grass_max_height: 0,
        generator_grass_seed: 0,
        generator_roof_pins: Vec::new(),
        generator_roof_style: String::new(),
        generator_roof_height: 0,
        generator_roof_thickness: 0,
        generator_roof_break_ratio: 0,
        generator_roof_wall_height: 0,
        generator_roof_parapet_height: 0,
        generator_roof_salt_skew: 0,
        generator_roof_hollow: false,
        generator_ashlar_size: 0,
        generator_ashlar_roughness: 0,
        generator_ashlar_seed: 0,
        generator_ashlar_thickness: 0,
        generator_flora_seed: 0,
        generator_flora_height: 0,
        generator_flora_girth: 0,
        generator_flora_wobble: 0,
        generator_flora_taper: 0,
        generator_flora_stem_count: 0,
        generator_flora_cluster_radius: 0,
        generator_flora_branch_count: 0,
        generator_flora_branch_depth: 0,
        generator_flora_branch_start: 0,
        generator_flora_branch_spread: 0,
        generator_flora_braid_strands: 0,
        generator_flora_braid_twist: 0,
        generator_flora_canopy: 0,
        generator_insecta_species: String::new(),
        generator_insecta_total_length: 0,
        generator_insecta_head_ratio: 0,
        generator_insecta_thorax_ratio: 0,
        generator_insecta_abdomen_ratio: 0,
        generator_insecta_body_half_width: 0,
        generator_insecta_body_half_height: 0,
        generator_insecta_abdomen_taper: 0,
        generator_insecta_head_shape: 0,
        generator_insecta_anchor_offset_u: 0,
        generator_insecta_anchor_offset_v: 0,
        generator_insecta_body_yaw: 0,
        generator_insecta_body_arch: 0,
        generator_insecta_antenna_length: 0,
        generator_insecta_antenna_spread: 0,
        generator_insecta_antenna_pitch: 0,
        generator_insecta_antenna_root: 0,
        generator_insecta_mandible_length: 0,
        generator_insecta_mandible_spread: 0,
        generator_insecta_mandible_forward: 0,
        generator_insecta_wing_shape: 0,
        generator_insecta_show_wing_fore: false,
        generator_insecta_wing_fore_length: 0,
        generator_insecta_wing_fore_width: 0,
        generator_insecta_wing_fore_spread: 0,
        generator_insecta_wing_fore_pitch: 0,
        generator_insecta_wing_fore_offset: 0,
        generator_insecta_wing_fore_forward_cant: 0,
        generator_insecta_show_wing_hind: false,
        generator_insecta_wing_hind_length: 0,
        generator_insecta_wing_hind_width: 0,
        generator_insecta_wing_hind_spread: 0,
        generator_insecta_wing_hind_pitch: 0,
        generator_insecta_wing_hind_offset: 0,
        generator_fauna_stance: String::new(),
        generator_fauna_archetype: String::new(),
        generator_fauna_anchor_offset_u: 0,
        generator_fauna_anchor_offset_v: 0,
        generator_fauna_body_yaw: 0,
        generator_fauna_body_arch: 0,
        generator_fauna_spine_segments: 0,
        generator_fauna_body_length: 0,
        generator_fauna_body_half_width: 0,
        generator_fauna_body_half_height: 0,
        generator_fauna_neck_length: 0,
        generator_fauna_neck_half_width: 0,
        generator_fauna_neck_half_height: 0,
        generator_fauna_head_length: 0,
        generator_fauna_head_half_width: 0,
        generator_fauna_head_half_height: 0,
        generator_fauna_tail_length: 0,
        generator_fauna_shoulder_offset_forward: 0,
        generator_fauna_hip_offset_forward: 0,
        generator_fauna_front_upper_length: 0,
        generator_fauna_front_lower_length: 0,
        generator_fauna_hind_upper_length: 0,
        generator_fauna_hind_lower_length: 0,
        generator_fauna_auto_foot_placement: false,
        generator_piscina_seed: 0,
        generator_piscina_species: String::new(),
        generator_piscina_length: 0,
        generator_piscina_width: 0,
        generator_piscina_thickness: 0,
        generator_piscina_spine_bend: 0,
        generator_piscina_spine_s_curve: 0,
        generator_piscina_fin_dorsal: 0,
        generator_piscina_fin_anal: 0,
        generator_piscina_fin_caudal: 0,
        generator_piscina_fin_pectoral: 0,
        generator_piscina_fin_pelvic: 0,
        generator_piscina_fin_adipose: 0,
        generator_piscina_show_fin_dorsal: false,
        generator_piscina_show_fin_anal: false,
        generator_piscina_show_fin_caudal: false,
        generator_piscina_show_fin_pectoral: false,
        generator_piscina_show_fin_pelvic: false,
        generator_piscina_show_fin_adipose: false,
        generator_piscina_anchor_offset_u: 0,
        generator_piscina_anchor_offset_v: 0,
        stamp_origin_x: 0,
        stamp_origin_z: 0,
        mirror_axes: 0,
        generator_shape_kind: String::new(),
        generator_shape_size: 0,
        generator_shape_rot_x: 0,
        generator_shape_rot_y: 0,
        generator_shape_rot_z: 0,
        generator_shape_overwrite: false,
    }
}

fn facts(mode: PreviewMode) -> PreviewFacts {
    PreviewFacts {
        suppressed: false,
        mode,
        cursor: Some((1, 2)),
        model: true,
        gizmo_origin: None,
        bone_gizmo_drag: false,
        squishy_gizmo_drag: false,
        clipboard: None,
        debug_overlay: false,
        mesh_generation: 1,
    }
}

fn named(kind: &str) -> PreviewHoverContext {
    PreviewHoverContext { generator_kind: Some(String::from(kind)), color: 7, ..hover() }
}

fn input(mode: PreviewMode, nx: u32, ny: u32) -> SyncPreviewInput {
    SyncPreviewInput { nx, ny, mode, hover: hover() }
}

fn mesh_of(p: PreviewMeshPrepared) -> (u64, PreviewMesh) {
    match p {
        PreviewMeshPrepared::Upload { cache_key, mesh } => (cache_key, mesh),
        PreviewMeshPrepared::GenUpload { cache_key, mesh } => (cache_key, mesh),
        other => panic!("{:?}", other),
    }
}

fn done(n: PreviewNext) -> PreviewMeshPrepared {
    match n {
        PreviewNext::Done(p) => p,
        other => panic!("{:?}", other),
    }
}

#[test]
fn pointer_leaves_below_zero() {
    let mut p = PreviewPointer {
        mode: PreviewMode::Navigate,
        cursor: None,
        camera_locked: false,
        hover: hover(),
    };
    let bits = |v: f32| v.to_bits();
    assert!(p.sync_preview_input(input(PreviewMode::Add, bits(0.25), bits(-0.5))));
    assert_eq!(p.cursor, Some((bits(0.25), bits(-0.5))));
    assert!(!p.sync_preview_input(input(PreviewMode::Add, bits(-1.0), bits(0.5))));
    assert_eq!(p.cursor, None);
    p.sync_preview_input(input(PreviewMode::Add, bits(-0.0), bits(0.0)));
    assert!(p.cursor.is_some());
    p.sync_preview_input(input(PreviewMode::Add, bits(f32::NAN), bits(0.0)));
    assert!(p.cursor.is_some());
    p.sync_preview_input(input(PreviewMode::Add, bits(f32::NEG_INFINITY), bits(0.0)));
    assert!(p.cursor.is_none());
    p.lock_generator_preview_camera();
    assert!(p.camera_locked);
    p.unlock_generator_preview_camera();
    assert!(!p.camera_locked);
}

#[test]
fn settings_arrive_with_the_pointer() {
    let mut p = PreviewPointer {
        mode: PreviewMode::Navigate,
        cursor: None,
        camera_locked: true,
        hover: hover(),
    };
    let sent = SyncPreviewInput {
        hover: PreviewHoverContext { color: 3, palette: vec![1, 2], ..named("roof") },
        ..input(PreviewMode::Add, 0, 0)
    };
    assert!(p.sync_preview_input(sent));
    assert_eq!((p.hover.palette.len(), p.hover.color, p.camera_locked), (2, 3, true));
    assert_eq!(p.hover.generator_kind.as_deref(), Some("roof"));
}

#[test]
fn context_follows_settings_and_facts() {
    let h = PreviewHoverContext {
        generator_roof_pins: vec![(0, 0, 0)],
        palette: vec![1, 2, 3],
        ..named("roof")
    };
    let f = PreviewFacts { bone_gizmo_drag: true, clipboard: Some(4), ..facts(PreviewMode::Add) };
    let c = context_of(&f, &h);
    assert_eq!((c.generator, c.roof_pins, c.palette), (Some(Generator::Roof), 1, 3));
    assert_eq!((c.cursor, c.gizmo_drag, c.clipboard), (true, true, Some(4)));
    assert_eq!(context_of(&f, &named("tower")).generator, None);
    assert_eq!(prepare_preview_mesh(&f, &h), PreviewStart::Ask(PreviewAsk::RoofPins));
    let three = PreviewHoverContext { generator_roof_pins: vec![(0, 0, 0); 3], ..named("roof") };
    assert_eq!(
        prepare_preview_mesh(&f, &three),
        PreviewStart::Ask(PreviewAsk::Cells(Generator::Roof)),
    );
}

#[test]
fn generators_show_under_the_key_of_their_settings() {
    let f = facts(PreviewMode::Add);
    let h = PreviewHoverContext { generator_rock_size: 4, ..named("rocks") };
    let key = generator_key(&f, &h, Generator::Rocks);
    let (k, mesh) = mesh_of(done(answer_cells(&f, &h, Generator::Rocks, &[(0, 0, 0)], None)));
    assert_eq!((k, mesh.style.color, mesh.style.look), (key, 7, PreviewLook::Tool));
    assert!(matches!(
        done(answer_cells(&f, &h, Generator::Rocks, &[(0, 0, 0)], Some(key))),
        PreviewMeshPrepared::Noop,
    ));
    let larger = PreviewHoverContext { generator_rock_size: 5, ..named("rocks") };
    assert_ne!(key, generator_key(&f, &larger, Generator::Rocks));
    assert_ne!(key, generator_key(&f, &h, Generator::Grass));
    let moved = PreviewFacts { cursor: Some((1, 3)), ..f };
    assert_ne!(key, generator_key(&moved, &h, Generator::Rocks));
    let cells = vec![ColoredCell { cell: (0, 0, 0), color: 5 }];
    let fish = answer_colored_cells(&f, &named("piscina"), Generator::Piscina, &cells, None);
    let (k, mesh) = mesh_of(done(fish));
    assert_eq!(k, generator_key(&f, &named("piscina"), Generator::Piscina));
    assert_eq!((mesh.style.look, mesh.colors), (PreviewLook::Own, cells));
}

#[test]
fn every_generator_has_a_key() {
    let (f, h) = (facts(PreviewMode::Add), named("rope"));
    let all = [
        Generator::Rope,
        Generator::Cloth,
        Generator::Rocks,
        Generator::Grass,
        Generator::Ashlar,
        Generator::Flora,
        Generator::Insecta,
        Generator::Fauna,
        Generator::Piscina,
        Generator::Roof,
        Generator::Shape,
    ];
    let keys: Vec<u64> = all.iter().map(|g| generator_key(&f, &h, *g)).collect();
    for (i, a) in keys.iter().enumerate() {
        for b in &keys[..i] {
            assert_ne!(a, b);
        }
    }
    let other = PreviewFacts { mesh_generation: 2, ..f };
    for (g, k) in all.iter().zip(&keys) {
        assert_ne!(generator_key(&other, &h, *g), *k);
    }
}

#[test]
fn shape_at_the_gizmo_does_not_follow_the_pointer() {
    let h = named("shape");
    let at = |o, c| {
        let f = PreviewFacts { gizmo_origin: o, cursor: c, ..facts(PreviewMode::Add) };
        generator_key(&f, &h, Generator::Shape)
    };
    assert_eq!(at(Some((1, -2, 3)), Some((1, 2))), at(Some((1, -2, 3)), None));
    assert_ne!(at(Some((1, -2, 3)), None), at(Some((2, -2, 3)), None));
    assert_eq!(at(Some((1, -2, 3)), None), at(Some((1, 2, -1)), None));
    assert_ne!(at(None, Some((1, 2))), at(None, Some((1, 3))));
}

#[test]
fn cells_under_the_pointer() {
    let h = PreviewHoverContext { color: 7, ..hover() };
    let cell = Some(((1, 2, 3), 4));
    let (key, mesh) = mesh_of(answer_cell(&facts(PreviewMode::Remove), &h, cell, None));
    assert_eq!(key, cell_key(&facts(PreviewMode::Remove), &h, cell));
    assert_eq!((mesh.style.tool, mesh.style.color), (EditTool::Remove, 7));
    let select = facts(PreviewMode::Select);
    let (_, mesh) = mesh_of(answer_cell(&select, &h, cell, None));
    assert_eq!(mesh.style.look, PreviewLook::Selected { object_id: 4 });
    assert_eq!(mesh.style.color, 0);
    let blue = PreviewHoverContext { color: 8, ..hover() };
    assert_eq!(cell_key(&select, &h, cell), cell_key(&select, &blue, cell));
    assert_ne!(
        cell_key(&facts(PreviewMode::Add), &h, cell),
        cell_key(&facts(PreviewMode::Add), &blue, cell),
    );
    assert!(matches!(answer_cell(&select, &h, None, None), PreviewMeshPrepared::Clear));
    let miss = cell_key(&select, &h, None);
    assert!(matches!(answer_cell(&select, &h, None, Some(miss)), PreviewMeshPrepared::Noop));
}

#[test]
fn sessions_go_by_their_keys() {
    let h = hover();
    let bones = |joints| BoneSession {
        joints: vec![BoneJoint { id: 1, x: 0, y: 0, z: 0, radius: 2 }; joints],
        bones: vec![],
        selected: None,
        pending_joint: None,
    };
    let f = facts(PreviewMode::Bone);
    let key = skeleton_key(&f, &h, &bones(1));
    assert_eq!(
        answer_skeleton(&f, &h, &bones(1), None),
        SkeletonStep::Build { max_voxels: 24_000, key },
    );
    assert_eq!(answer_skeleton(&f, &h, &bones(1), Some(key)), SkeletonStep::Noop);
    assert_eq!(answer_skeleton(&f, &h, &bones(0), None), SkeletonStep::Clear);
    let out = PreviewFacts { cursor: None, ..f };
    let minus = PreviewFacts { cursor: Some(((-1.0f32).to_bits(), (-1.0f32).to_bits())), ..f };
    assert_eq!(skeleton_key(&out, &h, &bones(1)), skeleton_key(&minus, &h, &bones(1)));
    let balls = |mode| SquishySession {
        mode,
        mode_number: 0,
        hollow: false,
        wall_thickness: 1,
        add_snap_to_surface: true,
        selected_id: None,
        balls: vec![],
    };
    let f = facts(PreviewMode::Squishy);
    let (cell, ball) = (Some((1, 2, 3)), Some(4));
    let add = balls(SquishyMode::Add);
    let key = metaball_key(&f, &h, &add, cell, None);
    assert_eq!(
        answer_metaballs(&f, &h, &add, cell, ball, None),
        MetaballStep::Build { key, anchor: cell },
    );
    assert_eq!(answer_metaballs(&f, &h, &add, cell, ball, Some(key)), MetaballStep::Noop);
    let take = balls(SquishyMode::Delete);
    let key = metaball_key(&f, &h, &take, None, ball);
    assert_eq!(
        answer_metaballs(&f, &h, &take, cell, ball, None),
        MetaballStep::Build { key, anchor: None },
    );
}

#[test]
fn strokes_and_stamps_go_by_their_keys() {
    let map = voxel_map(&[]);
    let h = PreviewHoverContext {
        color: 7,
        stroke_aux: StrokeAux { polygon_vertices: vec![(0, 0, 0)], text: Some(String::from("{}")) },
        ..hover()
    };
    let f = facts(PreviewMode::Select);
    let (one, other) = (vec![(1, 0, 0), (0, 0, 0)], vec![(0, 0, 0), (1, 0, 0)]);
    let key = stroke_key(&f, &h, &one, &map);
    assert_eq!(key, stroke_key(&f, &h, &other, &map));
    let (k, mesh) = mesh_of(answer_polygon(&f, &h, &one, &map, None));
    assert_eq!((k, mesh.cells), (key, one.clone()));
    let f = facts(PreviewMode::Paint);
    match answer_stroke(&f, &h, EditTool::Paint, &one, &map, None) {
        StrokeStep::TryRaw(p) => assert_eq!(mesh_of(p).1.style.look, PreviewLook::Tool),
        other => panic!("{:?}", other),
    }
    let palette = PreviewHoverContext { palette: vec![1, 2], ..hover() };
    match answer_stroke(&f, &palette, EditTool::Paint, &one, &map, None) {
        StrokeStep::Done(p) => assert_eq!(mesh_of(p).1.style.look, PreviewLook::Palette),
        other => panic!("{:?}", other),
    }
    let clip = vec![ClipEntry { dx: 0, dy: 0, dz: 0, color: 5 }];
    let f = facts(PreviewMode::Stamp);
    let (k, mesh) = mesh_of(answer_stamp(&f, &h, &clip, Some((1, 1, 1)), 0, 0, None));
    assert_eq!(k, clipboard_key(&f, &h, Some((1, 1, 1)), &clip));
    assert_eq!((mesh.style.look, mesh.style.only_if_solid), (PreviewLook::Own, true));
}
