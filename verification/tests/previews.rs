use voxel_view::preview::cells::{
    distinct_colored, stamp_cells, visible_cells, visible_colored, ColoredCell,
};
use voxel_view::preview::defaults::{
    default_ashlar_seed, default_cloth_constraint_passes_u32, default_cloth_gravity_direction_str,
    default_fauna_hip_offset_forward, default_insecta_total_length, default_shape_kind,
    default_shape_size,
};
use voxel_view::preview::display::PreviewDisplay;
use voxel_view::preview::generator_keys::{
    hash_generator_rock_hover, hash_generator_rope_hover, hash_generator_roof_hover,
    hash_generator_shape_hover, RockHover, RoofHover, RopeHover, ShapeHover,
};
use voxel_view::preview::keys::{
    hash_preview_miss, hash_single_cell_preview, miss_words, push_maybe, push_pins, push_text,
    push_words, single_cell_words, KeyWord,
};
use voxel_view::preview::mode::{
    brush_shape_tag, generator_from_name, same_text, BrushShape, EditTool, Generator, PreviewMode,
};
use voxel_view::preview::plan::{
    as_raw, cell_preview, cloth_effort, colored_generator_preview, generator_preview,
    metaball_pick, metaball_preview, placeable_cells, polygon_preview, same_key, settle,
    skeleton_built, skeleton_preview, stamp_preview, start_preview, stroke_preview, MetaballPick,
    PreviewAsk, PreviewContext, PreviewExtra, PreviewLook, PreviewMesh, PreviewMeshPrepared,
    PreviewNext, PreviewStart, SkeletonStep, StrokeStep,
};
use voxel_view::preview::session_keys::{
    bone_preview_words, brush_words, hash_bone_preview, hash_brush_hover_targets,
    hash_squishy_preview, hash_stamp_preview, hover_target_words, squishy_words, stamp_words, Bone,
    BoneJoint, BoneSession, BrushHover, ClipEntry, SquishyBall, SquishyMode, SquishySession,
};
use voxel_view::render::overlays::{Instanced, Overlays, PreviewSizes};
use voxel_view::smooth_mesh::whole_model::voxel_map;
use voxel_view::voxelle::{MaterialId, Voxel, VoxelCoord};

fn context(mode: PreviewMode) -> PreviewContext {
    PreviewContext {
        suppressed: false,
        mode,
        cursor: true,
        model: true,
        generator: None,
        rope_started: false,
        cloth_pins: 0,
        roof_pins: 0,
        gizmo_center: false,
        gizmo_drag: false,
        polygon_stroke: false,
        polygon_vertices: 0,
        use_brush_preview: false,
        clipboard: None,
        palette: 1,
    }
}

fn colored(cell: VoxelCoord, color: u32) -> ColoredCell {
    ColoredCell { cell, color }
}

fn uploaded(p: PreviewMeshPrepared) -> (u64, PreviewMesh) {
    match p {
        PreviewMeshPrepared::Upload { cache_key, mesh } => (cache_key, mesh),
        other => panic!("{:?}", other),
    }
}

fn generated(n: PreviewNext) -> (u64, PreviewMesh) {
    match n {
        PreviewNext::Done(PreviewMeshPrepared::GenUpload { cache_key, mesh }) => (cache_key, mesh),
        other => panic!("{:?}", other),
    }
}

/// Cells of the cube from the origin with `n` cells along each side.
fn block(n: i32) -> Vec<VoxelCoord> {
    let mut out = Vec::new();
    for x in 0..n {
        for y in 0..n {
            for z in 0..n {
                out.push((x, y, z));
            }
        }
    }
    out
}

#[test]
fn suppressed_preview_stays() {
    let ctx = PreviewContext { suppressed: true, ..context(PreviewMode::Add) };
    assert_eq!(start_preview(&ctx), PreviewStart::Noop);
}

#[test]
fn camera_modes_show_nothing() {
    assert_eq!(start_preview(&context(PreviewMode::Navigate)), PreviewStart::Clear);
    assert_eq!(start_preview(&context(PreviewMode::Fly)), PreviewStart::Clear);
    assert_eq!(start_preview(&context(PreviewMode::SelectExtrude)), PreviewStart::Clear);
}

#[test]
fn preview_needs_a_model_and_the_pointer() {
    let no_model = |m| PreviewContext { model: false, ..context(m) };
    let no_cursor = |m| PreviewContext { cursor: false, ..context(m) };
    assert_eq!(start_preview(&no_model(PreviewMode::Add)), PreviewStart::Clear);
    assert_eq!(
        start_preview(&no_model(PreviewMode::Bone)),
        PreviewStart::Ask(PreviewAsk::Skeleton),
    );
    assert_eq!(start_preview(&no_cursor(PreviewMode::Paint)), PreviewStart::Clear);
    let cloth = PreviewContext {
        generator: Some(Generator::Cloth),
        cloth_pins: 3,
        ..no_cursor(PreviewMode::Add)
    };
    assert_eq!(
        start_preview(&cloth),
        PreviewStart::Ask(PreviewAsk::Cells(Generator::Cloth)),
    );
    let two_pins = PreviewContext { cloth_pins: 2, ..cloth };
    assert_eq!(start_preview(&two_pins), PreviewStart::Clear);
    let gizmo = PreviewContext {
        generator: Some(Generator::Shape),
        gizmo_center: true,
        ..no_cursor(PreviewMode::Add)
    };
    assert_eq!(start_preview(&gizmo), PreviewStart::Ask(PreviewAsk::ShapeAtGizmo));
}

#[test]
fn generators_are_asked_first() {
    let with = |g| PreviewContext { generator: Some(g), ..context(PreviewMode::Add) };
    assert_eq!(
        start_preview(&with(Generator::Rocks)),
        PreviewStart::Ask(PreviewAsk::Cells(Generator::Rocks)),
    );
    assert_eq!(
        start_preview(&with(Generator::Fauna)),
        PreviewStart::Ask(PreviewAsk::ColoredCells(Generator::Fauna)),
    );
    assert_eq!(
        start_preview(&with(Generator::Rope)),
        PreviewStart::Ask(PreviewAsk::CellAtPointer { in_front: true }),
    );
    let started = PreviewContext { rope_started: true, ..with(Generator::Rope) };
    assert_eq!(
        start_preview(&started),
        PreviewStart::Ask(PreviewAsk::Cells(Generator::Rope)),
    );
    let painting = PreviewContext { mode: PreviewMode::Paint, ..with(Generator::Rocks) };
    assert_eq!(
        start_preview(&painting),
        PreviewStart::Ask(PreviewAsk::CellAtPointer { in_front: false }),
    );
}

#[test]
fn modes_ask_for_what_they_show() {
    let brush = |m| PreviewContext { use_brush_preview: true, ..context(m) };
    assert_eq!(
        start_preview(&brush(PreviewMode::Remove)),
        PreviewStart::Ask(PreviewAsk::StrokeTargets(EditTool::Remove)),
    );
    assert_eq!(
        start_preview(&context(PreviewMode::Squishy)),
        PreviewStart::Ask(PreviewAsk::Metaballs),
    );
    let polygon = PreviewContext {
        polygon_stroke: true,
        polygon_vertices: 2,
        ..brush(PreviewMode::Select)
    };
    assert_eq!(start_preview(&polygon), PreviewStart::Ask(PreviewAsk::PolygonTargets));
    assert_eq!(
        start_preview(&brush(PreviewMode::Select)),
        PreviewStart::Ask(PreviewAsk::CellAtPointer { in_front: false }),
    );
    assert_eq!(start_preview(&context(PreviewMode::Stamp)), PreviewStart::Clear);
    let clip = |m| PreviewContext { clipboard: Some(2), ..context(m) };
    assert_eq!(
        start_preview(&clip(PreviewMode::Stamp)),
        PreviewStart::Ask(PreviewAsk::StampAnchor { in_front: true }),
    );
    assert_eq!(
        start_preview(&clip(PreviewMode::Punch)),
        PreviewStart::Ask(PreviewAsk::StampAnchor { in_front: false }),
    );
    let empty = PreviewContext { clipboard: Some(0), ..context(PreviewMode::Punch) };
    assert_eq!(start_preview(&empty), PreviewStart::Clear);
}

#[test]
fn lit_generators_show_their_shell() {
    let cells = block(3);
    let ctx = context(PreviewMode::Add);
    let (key, mesh) = generated(generator_preview(&ctx, Generator::Rocks, 9, &cells, 5, Some(4)));
    assert_eq!(key, 5);
    assert_eq!(mesh.cells.len(), 26);
    assert!(!mesh.cells.contains(&(1, 1, 1)));
    assert!(matches!(
        generator_preview(&ctx, Generator::Rocks, 9, &cells, 5, Some(5)),
        PreviewNext::Done(PreviewMeshPrepared::Noop),
    ));
    assert!(matches!(
        generator_preview(&ctx, Generator::Rocks, 9, &[], 5, None),
        PreviewNext::Go(PreviewStart::Ask(PreviewAsk::CellAtPointer { in_front: true })),
    ));
}

#[test]
fn roof_shows_its_pins_without_cells() {
    let ctx = PreviewContext { cursor: false, ..context(PreviewMode::Add) };
    match generator_preview(&ctx, Generator::Roof, 9, &[], 8, None) {
        PreviewNext::Done(p) => {
            let (key, mesh) = uploaded(p);
            assert_eq!((key, mesh.style.extra), (8, PreviewExtra::PinMarkers));
            assert!(mesh.cells.is_empty());
        }
        other => panic!("{:?}", other),
    }
    assert!(matches!(
        generator_preview(&ctx, Generator::Cloth, 9, &[], 8, None),
        PreviewNext::Go(PreviewStart::Clear),
    ));
}

#[test]
fn coloured_generators_keep_the_last_colour() {
    let ctx = context(PreviewMode::Add);
    let cells = vec![colored((0, 0, 0), 1), colored((1, 0, 0), 2), colored((0, 0, 0), 3)];
    let (_, mesh) = generated(colored_generator_preview(&ctx, 9, &cells, 1, None));
    assert_eq!(mesh.colors, vec![colored((0, 0, 0), 3), colored((1, 0, 0), 2)]);
    assert_eq!(mesh.cells, vec![(0, 0, 0), (1, 0, 0)]);
    assert_eq!(distinct_colored(&cells), mesh.colors);
}

#[test]
fn hidden_cells_are_left_out() {
    assert_eq!(visible_cells(&block(4)).len(), 64 - 8);
    let twice = [(0, 0, 0), (0, 0, 0), (5, 0, 0)];
    assert_eq!(visible_cells(&twice), vec![(0, 0, 0), (5, 0, 0)]);
    let full: Vec<ColoredCell> = block(3).iter().map(|c| colored(*c, 9)).collect();
    assert_eq!(visible_colored(&full).len(), 26);
}

#[test]
fn stamp_lands_round_its_anchor() {
    let clip = vec![
        ClipEntry { dx: 0, dy: 0, dz: 0, color: 1 },
        ClipEntry { dx: 2, dy: 1, dz: 3, color: 2 },
    ];
    assert_eq!(
        stamp_cells(&clip, (10, 20, 30), 1, 2),
        vec![colored((9, 20, 28), 1), colored((11, 21, 31), 2)],
    );
    let (_, stamp) = uploaded(stamp_preview(true, 9, &clip, Some((0, 0, 0)), 0, 0, 1, None));
    assert_eq!((stamp.style.tool, stamp.colors.len()), (EditTool::Add, 2));
    let (_, punch) = uploaded(stamp_preview(false, 9, &clip, Some((0, 0, 0)), 0, 0, 1, None));
    assert_eq!((punch.style.tool, punch.colors.len()), (EditTool::Remove, 0));
    assert_eq!(punch.cells, vec![(0, 0, 0), (2, 1, 3)]);
    assert!(matches!(
        stamp_preview(true, 9, &clip, None, 0, 0, 1, None),
        PreviewMeshPrepared::Clear,
    ));
}

#[test]
fn shape_keeps_off_filled_cells() {
    let voxel = Voxel {
        x: 1,
        y: 0,
        z: 0,
        color: 0,
        material: MaterialId::Plastic,
        object_id: 0,
    };
    let map = voxel_map(&[voxel]);
    let cells = vec![(0, 0, 0), (1, 0, 0), (2, 0, 0)];
    assert_eq!(placeable_cells(&cells, false, &map), vec![(0, 0, 0), (2, 0, 0)]);
    assert_eq!(placeable_cells(&cells, true, &map), cells);
}

#[test]
fn cloth_effort_is_kept_in_bounds() {
    assert_eq!(cloth_effort(0, 0), (None, 1));
    assert_eq!(cloth_effort(1, 3), (Some(4), 3));
    assert_eq!(cloth_effort(50, 9), (Some(50), 6));
    assert_eq!(cloth_effort(1000, 6), (Some(96), 6));
}

#[test]
fn skeleton_shows_fewer_cells_while_dragged() {
    let ctx = context(PreviewMode::Bone);
    assert_eq!(
        skeleton_preview(&ctx, 2, 1, None),
        SkeletonStep::Build { max_voxels: 24_000, key: 1 },
    );
    let drag = PreviewContext { gizmo_drag: true, ..ctx };
    assert_eq!(
        skeleton_preview(&drag, 2, 1, None),
        SkeletonStep::Build { max_voxels: 12_000, key: 1 },
    );
    let (key, mesh) = uploaded(skeleton_built(9, &[(1, 0, 0), (1, 0, 0)], 1));
    assert_eq!((key, mesh.cells, mesh.style.extra), (1, vec![(1, 0, 0)], PreviewExtra::SkeletonWire));
    assert_eq!(skeleton_preview(&ctx, 0, 1, None), SkeletonStep::Clear);
    assert_eq!(skeleton_preview(&ctx, 0, 1, Some(1)), SkeletonStep::Noop);
}

#[test]
fn metaballs_are_picked_by_mode() {
    assert_eq!(metaball_pick(SquishyMode::Add, true), MetaballPick::CellInFront);
    assert_eq!(metaball_pick(SquishyMode::Add, false), MetaballPick::FilledCell);
    assert_eq!(metaball_pick(SquishyMode::Delete, true), MetaballPick::Ball);
    assert_eq!(metaball_pick(SquishyMode::Other, true), MetaballPick::Nothing);
    let anchor = Some((7, 7, 7));
    let (_, mesh) = uploaded(metaball_preview(9, 0, anchor, vec![(1, 1, 1)], 3));
    assert_eq!(mesh.cells, vec![(1, 1, 1), (7, 7, 7)]);
    assert_eq!(mesh.style.extra, PreviewExtra::PickRings);
    let (_, other) = uploaded(metaball_preview(9, 0, None, vec![(1, 1, 1)], 3));
    assert_eq!((other.cells.len(), other.style.extra), (1, PreviewExtra::Nothing));
    assert!(matches!(metaball_preview(9, 0, None, vec![], 3), PreviewMeshPrepared::Clear));
}

#[test]
fn single_cell_and_polygon_previews() {
    let cell = Some(((1, 2, 3), 6));
    let (key, mesh) = uploaded(cell_preview(PreviewMode::Paint, 5, cell, 4, None));
    assert_eq!((key, mesh.cells), (4, vec![(1, 2, 3)]));
    assert_eq!((mesh.style.tool, mesh.style.color), (EditTool::Paint, 5));
    assert_eq!(mesh.style.look, PreviewLook::Cell { object_id: 6 });
    let (_, picked) = uploaded(cell_preview(PreviewMode::Select, 0, cell, 4, None));
    assert_eq!(picked.style.look, PreviewLook::Selected { object_id: 6 });
    assert!(matches!(
        cell_preview(PreviewMode::Paint, 5, None, 4, None),
        PreviewMeshPrepared::Clear,
    ));
    let (_, poly) = uploaded(polygon_preview(9, &[(0, 0, 0), (0, 0, 0)], 4, Some(3)));
    assert_eq!(poly.cells.len(), 1);
    assert_eq!((poly.style.tool, poly.style.extra), (EditTool::Remove, PreviewExtra::PolygonMarkers));
}

#[test]
fn strokes_of_one_colour_may_go_raw() {
    let ctx = context(PreviewMode::Add);
    let cells = [(0, 0, 0), (1, 0, 0)];
    match stroke_preview(&ctx, EditTool::Add, 9, &cells, 2, None) {
        StrokeStep::TryRaw(p) => {
            assert!(matches!(
                as_raw(p),
                PreviewMeshPrepared::RawVoxelUpload { cache_key: 2, .. },
            ));
        }
        other => panic!("{:?}", other),
    }
    let palette = PreviewContext { palette: 2, ..ctx };
    assert!(matches!(
        stroke_preview(&palette, EditTool::Add, 9, &cells, 2, None),
        StrokeStep::Done(PreviewMeshPrepared::Upload { .. }),
    ));
    assert!(matches!(
        stroke_preview(&ctx, EditTool::Add, 9, &[], 2, None),
        StrokeStep::Done(PreviewMeshPrepared::Clear),
    ));
    assert!(matches!(
        stroke_preview(&ctx, EditTool::Add, 9, &cells, 2, Some(2)),
        StrokeStep::Done(PreviewMeshPrepared::Noop),
    ));
    assert!(matches!(as_raw(PreviewMeshPrepared::Clear), PreviewMeshPrepared::Clear));
}

#[test]
fn empty_meshes_are_not_shown() {
    let single = || cell_preview(PreviewMode::Add, 9, Some(((0, 0, 0), 0)), 1, None);
    assert!(matches!(settle(single(), 0, 0), PreviewMeshPrepared::Upload { .. }));
    let prepared = || polygon_preview(9, &[(0, 0, 0)], 1, None);
    assert!(matches!(settle(prepared(), 0, 0), PreviewMeshPrepared::Clear));
    assert!(matches!(settle(prepared(), 1, 0), PreviewMeshPrepared::Upload { .. }));
    assert!(matches!(settle(prepared(), 0, 3), PreviewMeshPrepared::Upload { .. }));
    assert!(same_key(Some(3), 3) && !same_key(None, 3) && !same_key(Some(2), 3));
}

#[test]
fn words_of_single_cells() {
    assert_eq!(
        single_cell_words(PreviewMode::Add, 1, -2, 3, 4, true, 5, 6),
        vec![
            KeyWord::Mode(PreviewMode::Add),
            KeyWord::Int(1),
            KeyWord::Int(-2),
            KeyWord::Int(3),
            KeyWord::Byte(4),
            KeyWord::Flag(true),
            KeyWord::Word(5),
            KeyWord::Word(6),
        ],
    );
    let mut words = vec![KeyWord::Byte(1)];
    push_words(&mut words, &vec![KeyWord::Byte(2)]);
    push_text(&mut words, "a\u{e9}");
    push_pins(&mut words, &vec![(1, 2, 3)]);
    push_maybe(&mut words, Some(9));
    push_maybe(&mut words, None);
    assert_eq!(
        words,
        vec![
            KeyWord::Byte(1),
            KeyWord::Byte(2),
            KeyWord::Letter(0x61),
            KeyWord::Letter(0xe9),
            KeyWord::TextEnd,
            KeyWord::Int(1),
            KeyWord::Int(2),
            KeyWord::Int(3),
            KeyWord::Present,
            KeyWord::Word(9),
            KeyWord::Absent,
        ],
    );
}

#[test]
fn keys_tell_previews_apart() {
    let at = |x| hash_single_cell_preview(PreviewMode::Add, x, 0, 0, 0, false, 0, 0);
    assert_eq!(at(1), at(1));
    assert_ne!(at(1), at(2));
    assert_ne!(at(0), 0);
    assert_eq!(
        hash_preview_miss(PreviewMode::Add, true),
        hash_preview_miss(PreviewMode::Add, true),
    );
    assert_ne!(
        hash_preview_miss(PreviewMode::Add, true),
        hash_preview_miss(PreviewMode::Paint, true),
    );
    assert_ne!(
        miss_words(PreviewMode::Add, true),
        single_cell_words(PreviewMode::Add, 0, 0, 0, 0, true, 0, 0),
    );
}

#[test]
fn generator_keys_follow_their_settings() {
    let rope = |dir: &str| RopeHover {
        h1: (1, 2, 3),
        sx2: 4,
        sy2: 5,
        tension: 6,
        gravity_dir: String::from(dir),
        brush_radius: 1,
        brush_shape: BrushShape::Cube,
        color: 7,
        dbg: false,
        mesh_gen: 8,
    };
    assert_eq!(
        hash_generator_rope_hover(&rope("down")),
        hash_generator_rope_hover(&rope("down")),
    );
    assert_ne!(hash_generator_rope_hover(&rope("down")), hash_generator_rope_hover(&rope("up")));
    assert_ne!(rope("down").words(), rope("up").words());
    let rock = |count| RockHover {
        sx: 1,
        sy: 2,
        size: 3,
        roughness: 4,
        seed: 5,
        color: 6,
        dbg: true,
        mesh_gen: 7,
        count,
        cluster_radius: 8,
        sink_direction: 9,
        sink_amount: 10,
    };
    assert_ne!(hash_generator_rock_hover(&rock(1)), hash_generator_rock_hover(&rock(2)));
    let shape = |overwrite| ShapeHover {
        sx: 0,
        sy: 0,
        shape_kind: String::from("cube"),
        size: 8,
        rot_x: 0,
        rot_y: 0,
        rot_z: 0,
        overwrite,
        color: 0,
        dbg: false,
        mesh_gen: 0,
    };
    assert_ne!(
        hash_generator_shape_hover(&shape(true)),
        hash_generator_shape_hover(&shape(false)),
    );
    let roof = |pins| RoofHover {
        pins,
        style: String::from("gable"),
        height: 3,
        thickness: 1,
        break_ratio: 0,
        wall_height: 2,
        parapet_height: 0,
        salt_skew: 0,
        hollow: true,
        color: 1,
        dbg: false,
        mesh_gen: 2,
    };
    assert_ne!(
        hash_generator_roof_hover(&roof(vec![(0, 0, 0)])),
        hash_generator_roof_hover(&roof(vec![(0, 0, 1)])),
    );
}

fn brush() -> BrushHover {
    BrushHover {
        use_brush_preview: true,
        brush_radius: 2,
        brush_shape: BrushShape::Circle,
        spray_density: 3,
        stroke_mode: 4,
        plane_axis: 1,
        color: 5,
        material: String::from("wax"),
        match_material: false,
        stroke_aux: None,
    }
}

#[test]
fn order_of_stroke_targets_does_not_matter() {
    let map = voxel_map(&[]);
    let one = vec![(3, 0, 0), (1, 5, 0), (1, 2, 9)];
    let other = vec![(1, 2, 9), (3, 0, 0), (1, 5, 0)];
    let words = hover_target_words(PreviewMode::Add, &brush(), &one, &map, false);
    assert_eq!(words, hover_target_words(PreviewMode::Add, &brush(), &other, &map, false));
    let sorted = vec![(1, 2, 9), (1, 5, 0), (3, 0, 0)];
    assert_eq!(words, brush_words(PreviewMode::Add, &brush(), &sorted, &map, false));
    assert_eq!(
        hash_brush_hover_targets(PreviewMode::Add, &brush(), &one, &map, false),
        hash_brush_hover_targets(PreviewMode::Add, &brush(), &other, &map, false),
    );
}

#[test]
fn session_keys_follow_the_session() {
    let squishy = |selected_id| SquishySession {
        mode: SquishyMode::Add,
        mode_number: 0,
        hollow: false,
        wall_thickness: 1,
        add_snap_to_surface: true,
        selected_id,
        balls: vec![SquishyBall { id: 1, x: 2, y: 3, z: 4, radius: 5 }],
    };
    let words = squishy_words(&squishy(None), 0, 0, None, false, None, false, 0);
    assert!(words.contains(&KeyWord::Absent));
    assert_ne!(words, squishy_words(&squishy(Some(1)), 0, 0, None, false, None, false, 0));
    assert_ne!(
        hash_squishy_preview(&squishy(None), 0, 0, None, false, None, false, 0),
        hash_squishy_preview(&squishy(None), 0, 0, Some((0, 0, 0)), false, None, false, 0),
    );
    let bones = BoneSession {
        joints: vec![BoneJoint { id: 1, x: 0, y: 0, z: 0, radius: 2 }],
        bones: vec![Bone { id: 3, joint_a: 1, joint_b: 1 }],
        selected: None,
        pending_joint: Some(1),
    };
    assert!(bone_preview_words(&bones, 0, 0, false, false, 0).contains(&KeyWord::Word(3)));
    assert_ne!(
        hash_bone_preview(&bones, 0, 0, false, false, 0),
        hash_bone_preview(&bones, 0, 0, true, false, 0),
    );
    let clip = vec![ClipEntry { dx: 1, dy: 2, dz: 3, color: 4 }];
    assert_eq!(
        stamp_words(PreviewMode::Stamp, None, &clip, 5, 6, true),
        vec![
            KeyWord::Mode(PreviewMode::Stamp),
            KeyWord::Absent,
            KeyWord::Int(1),
            KeyWord::Int(2),
            KeyWord::Int(3),
            KeyWord::Word(4),
            KeyWord::Int(5),
            KeyWord::Int(6),
            KeyWord::Flag(true),
        ],
    );
    assert_ne!(
        hash_stamp_preview(PreviewMode::Stamp, None, &clip, 5, 6, true),
        hash_stamp_preview(PreviewMode::Punch, None, &clip, 5, 6, true),
    );
}

#[test]
fn names_and_tags() {
    assert_eq!(generator_from_name("piscina"), Some(Generator::Piscina));
    assert_eq!(generator_from_name("rocks"), Some(Generator::Rocks));
    assert_eq!(generator_from_name("rock"), None);
    assert!(same_text("roof", "roof") && !same_text("roof", "root") && !same_text("a", "ab"));
    let all = [
        BrushShape::Sphere,
        BrushShape::Cube,
        BrushShape::Pyramid,
        BrushShape::Square,
        BrushShape::Circle,
    ];
    for (i, a) in all.iter().enumerate() {
        for b in &all[..i] {
            assert_ne!(brush_shape_tag(*a), brush_shape_tag(*b));
        }
    }
}

#[test]
fn defaults_of_generator_settings() {
    assert_eq!(default_ashlar_seed(), 42);
    assert_eq!(default_insecta_total_length(), 12);
    assert_eq!(default_fauna_hip_offset_forward(), -3);
    assert_eq!(default_cloth_constraint_passes_u32(), 2);
    assert_eq!(default_shape_size(), 8);
    assert_eq!(default_shape_kind(), "cube");
    assert_eq!(default_cloth_gravity_direction_str(), "down");
}

fn sizes() -> PreviewSizes {
    PreviewSizes {
        solid_instances: 3,
        wire_instances: 3,
        solid_indices: 36,
        wire_indices: 24,
        extra_lanes: 0,
        extra_indices: 0,
        extra_wire_lanes: 0,
        extra_wire_indices: 0,
    }
}

#[test]
fn shown_preview_is_remembered() {
    let mut display = PreviewDisplay { overlay_key: None };
    let mut viewer = Overlays::new();
    let prepared = cell_preview(PreviewMode::Add, 9, Some(((0, 0, 0), 0)), 11, None);
    display.apply_preview_mesh(&mut viewer, &prepared, &sizes());
    assert_eq!(display.preview_overlay_cache_key_get(), Some(11));
    assert_eq!(viewer.preview_cache_key, Some(11));
    assert_eq!(viewer.preview_solid, Some(Instanced { indices: 36, instances: 3 }));
    let again = cell_preview(PreviewMode::Add, 9, Some(((0, 0, 0), 0)), 11, display.overlay_key);
    let before = viewer;
    display.apply_preview_mesh(&mut viewer, &again, &sizes());
    assert_eq!(viewer, before);
    display.apply_preview_mesh(&mut viewer, &PreviewMeshPrepared::Clear, &sizes());
    assert_eq!(display.preview_overlay_cache_key_get(), None);
    assert!(viewer.preview_solid.is_none() && viewer.draw_indexed_preview().is_empty());
    viewer.preview_cache_key = Some(5);
    display.clear_preview_mesh_sync_cache(&mut viewer);
    assert_eq!(viewer.preview_cache_key, None);
}
