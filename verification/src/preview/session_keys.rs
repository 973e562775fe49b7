//! Cache keys of the previews of sessions, brush strokes and stamps.

use vstd::prelude::*;
use vstd::relations::{sorted_by, total_ordering};
use vstd::seq_lib::lemma_sorted_unique;

use crate::collections::{
    cell_le, cells_sorted, coord_map_get, entries, sort_cells, CoordMap,
};
use crate::preview::keys::{
    hash_words, maybe_words, pin_words, possible_key, push_maybe, push_pins, push_text, push_words,
    text_words, KeyWord,
};
use crate::preview::mode::{brush_shape_tag, shape_number, BrushShape, PreviewMode};
use crate::voxelle::VoxelCoord;

verus! {

/// A ball of a metaball session; the radius by its bit pattern.
#[derive(Clone, Copy, Debug, PartialEq, Eq, Structural)]
pub struct SquishyBall {
    pub id: u32,
    pub x: i32,
    pub y: i32,
    pub z: i32,
    pub radius: u32,
}

/// What a click does in a metaball session.
#[derive(Clone, Copy, Debug, PartialEq, Eq, Structural)]
pub enum SquishyMode {
    Add,
    Delete,
    Other,
}

/// A metaball session. `mode_number` is the number of its mode.
#[derive(Debug)]
pub struct SquishySession {
    pub mode: SquishyMode,
    pub mode_number: u8,
    pub hollow: bool,
    pub wall_thickness: i32,
    pub add_snap_to_surface: bool,
    pub selected_id: Option<u32>,
    pub balls: Vec<SquishyBall>,
}

/// Words of a list of balls.
pub open spec fn ball_words(balls: Seq<SquishyBall>) -> Seq<KeyWord>
    decreases balls.len(),
{
    if balls.len() == 0 {
        seq![]
    } else {
        let b = balls.last();
        ball_words(balls.drop_last()) + seq![
            KeyWord::Word(b.id),
            KeyWord::Int(b.x),
            KeyWord::Int(b.y),
            KeyWord::Int(b.z),
            KeyWord::Word(b.radius),
        ]
    }
}

fn push_balls(words: &mut Vec<KeyWord>, balls: &Vec<SquishyBall>)
    ensures
        final(words)@ == old(words)@ + ball_words(balls@),
{
    let ghost start = words@;
    let mut i: usize = 0;
    assert(balls@.take(0) =~= Seq::<SquishyBall>::empty());
    assert(words@ =~= start + ball_words(balls@.take(0)));
    while i < balls.len()
        invariant
            0 <= i <= balls@.len(),
            words@ == start + ball_words(balls@.take(i as int)),
        decreases balls@.len() - i,
    {
        let b = balls[i];
        words.push(KeyWord::Word(b.id));
        words.push(KeyWord::Int(b.x));
        words.push(KeyWord::Int(b.y));
        words.push(KeyWord::Int(b.z));
        words.push(KeyWord::Word(b.radius));
        assert(balls@.take(i as int + 1).drop_last() =~= balls@.take(i as int));
        assert(words@ =~= start + ball_words(balls@.take(i as int + 1)));
        i += 1;
    }
    assert(balls@.take(i as int) =~= balls@);
}

/// Words of the cell that a click would add at, or of there being none.
pub open spec fn anchor_words(anchor: Option<VoxelCoord>) -> Seq<KeyWord> {
    match anchor {
        Some(a) => seq![KeyWord::Int(a.0), KeyWord::Int(a.1), KeyWord::Int(a.2)],
        None => seq![KeyWord::Byte(0x5E)],
    }
}

/// Words of the key of the preview of a metaball session.
pub open spec fn squishy_key(
    session: SquishySession,
    sx: u32,
    sy: u32,
    add_anchor: Option<VoxelCoord>,
    gizmo_drag: bool,
    delete_hover_id: Option<u32>,
    debug_overlay: bool,
    palette_color: u32,
) -> Seq<KeyWord> {
    seq![
        KeyWord::Mode(PreviewMode::Squishy),
        KeyWord::Flag(debug_overlay),
        KeyWord::Word(palette_color),
        KeyWord::Word(sx),
        KeyWord::Word(sy),
        KeyWord::Flag(gizmo_drag),
    ] + maybe_words(delete_hover_id) + seq![
        KeyWord::Byte(session.mode_number),
        KeyWord::Flag(session.hollow),
        KeyWord::Int(session.wall_thickness),
        KeyWord::Flag(session.add_snap_to_surface),
    ] + maybe_words(session.selected_id) + ball_words(session.balls@) + anchor_words(add_anchor)
}

/// Words of the key of the preview of a metaball session. The pointer's position
/// is given by its bit patterns.
pub fn squishy_words(
    session: &SquishySession,
    sx: u32,
    sy: u32,
    add_anchor: Option<VoxelCoord>,
    gizmo_drag: bool,
    delete_hover_id: Option<u32>,
    debug_overlay: bool,
    palette_color: u32,
) -> (words: Vec<KeyWord>)
    ensures
        words@ == squishy_key(
            *session,
            sx,
            sy,
            add_anchor,
            gizmo_drag,
            delete_hover_id,
            debug_overlay,
            palette_color,
        ),
{
    let mut words: Vec<KeyWord> = Vec::new();
    push_words(
        &mut words,
        &vec![
            KeyWord::Mode(PreviewMode::Squishy),
            KeyWord::Flag(debug_overlay),
            KeyWord::Word(palette_color),
            KeyWord::Word(sx),
            KeyWord::Word(sy),
            KeyWord::Flag(gizmo_drag),
        ],
    );
    push_maybe(&mut words, delete_hover_id);
    push_words(
        &mut words,
        &vec![
            KeyWord::Byte(session.mode_number),
            KeyWord::Flag(session.hollow),
            KeyWord::Int(session.wall_thickness),
            KeyWord::Flag(session.add_snap_to_surface),
        ],
    );
    push_maybe(&mut words, session.selected_id);
    push_balls(&mut words, &session.balls);
    match add_anchor {
        Some(a) => {
            push_words(
                &mut words,
                &vec![KeyWord::Int(a.0), KeyWord::Int(a.1), KeyWord::Int(a.2)],
            );
        },
        None => {
            push_words(&mut words, &vec![KeyWord::Byte(0x5E)]);
        },
    }
    assert(words@ =~= squishy_key(
        *session,
        sx,
        sy,
        add_anchor,
        gizmo_drag,
        delete_hover_id,
        debug_overlay,
        palette_color,
    ));
    words
}

/// Cache key of the preview of a metaball session.
pub fn hash_squishy_preview(
    session: &SquishySession,
    sx: u32,
    sy: u32,
    add_anchor: Option<VoxelCoord>,
    gizmo_drag: bool,
    delete_hover_id: Option<u32>,
    debug_overlay: bool,
    palette_color: u32,
) -> (r: u64)
    ensures
        possible_key(
            squishy_key(
                *session,
                sx,
                sy,
                add_anchor,
                gizmo_drag,
                delete_hover_id,
                debug_overlay,
                palette_color,
            ),
            r,
        ),
{
    hash_words(
        &squishy_words(
            session,
            sx,
            sy,
            add_anchor,
            gizmo_drag,
            delete_hover_id,
            debug_overlay,
            palette_color,
        ),
    )
}

/// A joint of a skeleton session, its place and radius by their bit patterns.
#[derive(Clone, Copy, Debug, PartialEq, Eq, Structural)]
pub struct BoneJoint {
    pub id: u32,
    pub x: u32,
    pub y: u32,
    pub z: u32,
    pub radius: u32,
}

/// A bone of a skeleton session.
#[derive(Clone, Copy, Debug, PartialEq, Eq, Structural)]
pub struct Bone {
    pub id: u32,
    pub joint_a: u32,
    pub joint_b: u32,
}

/// A skeleton session.
#[derive(Debug)]
pub struct BoneSession {
    pub joints: Vec<BoneJoint>,
    pub bones: Vec<Bone>,
    pub selected: Option<u32>,
    pub pending_joint: Option<u32>,
}

/// Words of a list of joints.
pub open spec fn joint_words(joints: Seq<BoneJoint>) -> Seq<KeyWord>
    decreases joints.len(),
{
    if joints.len() == 0 {
        seq![]
    } else {
        let j = joints.last();
        joint_words(joints.drop_last()) + seq![
            KeyWord::Word(j.id),
            KeyWord::Word(j.x),
            KeyWord::Word(j.y),
            KeyWord::Word(j.z),
            KeyWord::Word(j.radius),
        ]
    }
}

/// Words of a list of bones.
pub open spec fn bone_words(bones: Seq<Bone>) -> Seq<KeyWord>
    decreases bones.len(),
{
    if bones.len() == 0 {
        seq![]
    } else {
        let b = bones.last();
        bone_words(bones.drop_last()) + seq![
            KeyWord::Word(b.id),
            KeyWord::Word(b.joint_a),
            KeyWord::Word(b.joint_b),
        ]
    }
}

fn push_joints(words: &mut Vec<KeyWord>, joints: &Vec<BoneJoint>)
    ensures
        final(words)@ == old(words)@ + joint_words(joints@),
{
    let ghost start = words@;
    let mut i: usize = 0;
    assert(joints@.take(0) =~= Seq::<BoneJoint>::empty());
    assert(words@ =~= start + joint_words(joints@.take(0)));
    while i < joints.len()
        invariant
            0 <= i <= joints@.len(),
            words@ == start + joint_words(joints@.take(i as int)),
        decreases joints@.len() - i,
    {
        let j = joints[i];
        words.push(KeyWord::Word(j.id));
        words.push(KeyWord::Word(j.x));
        words.push(KeyWord::Word(j.y));
        words.push(KeyWord::Word(j.z));
        words.push(KeyWord::Word(j.radius));
        assert(joints@.take(i as int + 1).drop_last() =~= joints@.take(i as int));
        assert(words@ =~= start + joint_words(joints@.take(i as int + 1)));
        i += 1;
    }
    assert(joints@.take(i as int) =~= joints@);
}

fn push_bones(words: &mut Vec<KeyWord>, bones: &Vec<Bone>)
    ensures
        final(words)@ == old(words)@ + bone_words(bones@),
{
    let ghost start = words@;
    let mut i: usize = 0;
    assert(bones@.take(0) =~= Seq::<Bone>::empty());
    assert(words@ =~= start + bone_words(bones@.take(0)));
    while i < bones.len()
        invariant
            0 <= i <= bones@.len(),
            words@ == start + bone_words(bones@.take(i as int)),
        decreases bones@.len() - i,
    {
        let b = bones[i];
        words.push(KeyWord::Word(b.id));
        words.push(KeyWord::Word(b.joint_a));
        words.push(KeyWord::Word(b.joint_b));
        assert(bones@.take(i as int + 1).drop_last() =~= bones@.take(i as int));
        assert(words@ =~= start + bone_words(bones@.take(i as int + 1)));
        i += 1;
    }
    assert(bones@.take(i as int) =~= bones@);
}

/// Words of the key of the preview of a skeleton session.
pub open spec fn bone_key(
    session: BoneSession,
    sx: u32,
    sy: u32,
    gizmo_drag: bool,
    debug_overlay: bool,
    palette_color: u32,
) -> Seq<KeyWord> {
    seq![
        KeyWord::Mode(PreviewMode::Bone),
        KeyWord::Flag(debug_overlay),
        KeyWord::Word(palette_color),
        KeyWord::Word(sx),
        KeyWord::Word(sy),
        KeyWord::Flag(gizmo_drag),
    ] + joint_words(session.joints@) + bone_words(session.bones@) + maybe_words(session.selected)
        + maybe_words(session.pending_joint)
}

/// Words of the key of the preview of a skeleton session. The pointer's position
/// is given by its bit patterns.
pub fn bone_preview_words(
    session: &BoneSession,
    sx: u32,
    sy: u32,
    gizmo_drag: bool,
    debug_overlay: bool,
    palette_color: u32,
) -> (words: Vec<KeyWord>)
    ensures
        words@ == bone_key(*session, sx, sy, gizmo_drag, debug_overlay, palette_color),
{
    let mut words: Vec<KeyWord> = Vec::new();
    push_words(
        &mut words,
        &vec![
            KeyWord::Mode(PreviewMode::Bone),
            KeyWord::Flag(debug_overlay),
            KeyWord::Word(palette_color),
            KeyWord::Word(sx),
            KeyWord::Word(sy),
            KeyWord::Flag(gizmo_drag),
        ],
    );
    push_joints(&mut words, &session.joints);
    push_bones(&mut words, &session.bones);
    push_maybe(&mut words, session.selected);
    push_maybe(&mut words, session.pending_joint);
    assert(words@ =~= bone_key(*session, sx, sy, gizmo_drag, debug_overlay, palette_color));
    words
}

/// Cache key of the preview of a skeleton session.
pub fn hash_bone_preview(
    session: &BoneSession,
    sx: u32,
    sy: u32,
    gizmo_drag: bool,
    debug_overlay: bool,
    palette_color: u32,
) -> (r: u64)
    ensures
        possible_key(
            bone_key(*session, sx, sy, gizmo_drag, debug_overlay, palette_color),
            r,
        ),
{
    hash_words(&bone_preview_words(session, sx, sy, gizmo_drag, debug_overlay, palette_color))
}

/// What decides the preview of a brush stroke, besides the cells that it reaches.
/// `stroke_aux` is the further state of the stroke as text, if it has one.
#[derive(Debug)]
pub struct BrushHover {
    pub use_brush_preview: bool,
    pub brush_radius: u32,
    pub brush_shape: BrushShape,
    pub spray_density: u32,
    pub stroke_mode: u8,
    pub plane_axis: u8,
    pub color: u32,
    pub material: String,
    pub match_material: bool,
    pub stroke_aux: Option<String>,
}

/// For each cell of a list, whether it is filled.
pub open spec fn filled_words(
    cells: Seq<VoxelCoord>,
    map: Map<VoxelCoord, usize>,
) -> Seq<KeyWord> {
    Seq::new(cells.len(), |i: int| KeyWord::Flag(map.contains_key(cells[i])))
}

/// Words of the key of the preview of a brush stroke that reaches the given cells.
pub open spec fn brush_key(
    mode: PreviewMode,
    ctx: BrushHover,
    cells: Seq<VoxelCoord>,
    map: Map<VoxelCoord, usize>,
    debug_overlay: bool,
) -> Seq<KeyWord> {
    seq![
        KeyWord::Mode(mode),
        KeyWord::Flag(debug_overlay),
        KeyWord::Flag(ctx.use_brush_preview),
        KeyWord::Word(ctx.brush_radius),
        KeyWord::Byte(shape_number(ctx.brush_shape)),
        KeyWord::Word(ctx.spray_density),
        KeyWord::Byte(ctx.stroke_mode),
        KeyWord::Byte(ctx.plane_axis),
        KeyWord::Word(ctx.color),
    ] + text_words(ctx.material@) + seq![
        KeyWord::Flag(ctx.match_material),
        KeyWord::Count(cells.len() as usize),
    ] + pin_words(cells) + filled_words(cells, map) + (match ctx.stroke_aux {
        Some(s) => text_words(s@),
        None => seq![],
    })
}

/// Words of the key of the preview of a brush stroke that reaches the given cells.
pub fn brush_words(
    mode: PreviewMode,
    ctx: &BrushHover,
    cells: &Vec<VoxelCoord>,
    voxel_map: &CoordMap,
    debug_overlay: bool,
) -> (words: Vec<KeyWord>)
    ensures
        words@ == brush_key(mode, *ctx, cells@, entries(*voxel_map), debug_overlay),
{
    let mut words: Vec<KeyWord> = Vec::new();
    push_words(
        &mut words,
        &vec![
            KeyWord::Mode(mode),
            KeyWord::Flag(debug_overlay),
            KeyWord::Flag(ctx.use_brush_preview),
            KeyWord::Word(ctx.brush_radius),
            KeyWord::Byte(brush_shape_tag(ctx.brush_shape)),
            KeyWord::Word(ctx.spray_density),
            KeyWord::Byte(ctx.stroke_mode),
            KeyWord::Byte(ctx.plane_axis),
            KeyWord::Word(ctx.color),
        ],
    );
    push_text(&mut words, ctx.material.as_str());
    push_words(
        &mut words,
        &vec![KeyWord::Flag(ctx.match_material), KeyWord::Count(cells.len())],
    );
    push_pins(&mut words, cells);
    let ghost start = words@;
    let ghost flags = filled_words(cells@, entries(*voxel_map));
    let mut i: usize = 0;
    assert(words@ =~= start + flags.take(0));
    while i < cells.len()
        invariant
            0 <= i <= cells@.len(),
            flags == filled_words(cells@, entries(*voxel_map)),
            words@ == start + flags.take(i as int),
        decreases cells@.len() - i,
    {
        let here = coord_map_get(voxel_map, &cells[i]).is_some();
        words.push(KeyWord::Flag(here));
        assert(flags[i as int] == KeyWord::Flag(here));
        assert(words@ =~= start + flags.take(i as int + 1));
        i += 1;
    }
    assert(flags.take(i as int) =~= flags);
    if let Some(s) = &ctx.stroke_aux {
        push_text(&mut words, s.as_str());
    }
    assert(words@ =~= brush_key(mode, *ctx, cells@, entries(*voxel_map), debug_overlay));
    words
}

/// Words of the key of the preview of a brush stroke: those for its cells put in order.
pub fn hover_target_words(
    mode: PreviewMode,
    ctx: &BrushHover,
    targets: &Vec<VoxelCoord>,
    voxel_map: &CoordMap,
    debug_overlay: bool,
) -> (words: Vec<KeyWord>)
    ensures
        exists|sorted: Seq<VoxelCoord>| #[trigger]
            cells_sorted(sorted) && sorted.to_multiset() == targets@.to_multiset() && words@
                == brush_key(mode, *ctx, sorted, entries(*voxel_map), debug_overlay),
{
    let mut sorted: Vec<VoxelCoord> = Vec::new();
    let mut i: usize = 0;
    assert(sorted@ =~= targets@.take(0));
    while i < targets.len()
        invariant
            0 <= i <= targets@.len(),
            sorted@ == targets@.take(i as int),
        decreases targets@.len() - i,
    {
        sorted.push(targets[i]);
        assert(sorted@ =~= targets@.take(i as int + 1));
        i += 1;
    }
    assert(sorted@ =~= targets@);
    sort_cells(&mut sorted);
    brush_words(mode, ctx, &sorted, voxel_map, debug_overlay)
}

/// Cache key of the preview of a brush stroke.
pub fn hash_brush_hover_targets(
    mode: PreviewMode,
    ctx: &BrushHover,
    targets: &Vec<VoxelCoord>,
    voxel_map: &CoordMap,
    debug_overlay: bool,
) -> (r: u64)
    ensures
        exists|sorted: Seq<VoxelCoord>| #[trigger]
            cells_sorted(sorted) && sorted.to_multiset() == targets@.to_multiset() && possible_key(
                brush_key(mode, *ctx, sorted, entries(*voxel_map), debug_overlay),
                r,
            ),
{
    hash_words(&hover_target_words(mode, ctx, targets, voxel_map, debug_overlay))
}

/// The order in which a stroke reaches its cells does not show in its key: lists
/// of the same cells are the same once they are in order.
pub proof fn law_target_order_is_irrelevant(a: Seq<VoxelCoord>, b: Seq<VoxelCoord>)
    requires
        cells_sorted(a),
        cells_sorted(b),
        a.to_multiset() == b.to_multiset(),
    ensures
        a == b,
{
    let leq = |x: VoxelCoord, y: VoxelCoord| cell_le(x, y);
    assert(total_ordering(leq));
    assert(sorted_by(a, leq)) by {
        assert forall|i: int, j: int| 0 <= i < j < a.len() implies #[trigger] leq(a[i], a[j]) by {
            assert(cell_le(a[i], a[j]));
        }
    }
    assert(sorted_by(b, leq)) by {
        assert forall|i: int, j: int| 0 <= i < j < b.len() implies #[trigger] leq(b[i], b[j]) by {
            assert(cell_le(b[i], b[j]));
        }
    }
    lemma_sorted_unique(a, b, leq);
}

/// A cell of the clipboard: its offset and colour.
#[derive(Clone, Copy, Debug, PartialEq, Eq, Structural)]
pub struct ClipEntry {
    pub dx: i32,
    pub dy: i32,
    pub dz: i32,
    pub color: u32,
}

/// Words of a list of clipboard cells.
pub open spec fn clip_words(clip: Seq<ClipEntry>) -> Seq<KeyWord>
    decreases clip.len(),
{
    if clip.len() == 0 {
        seq![]
    } else {
        let e = clip.last();
        clip_words(clip.drop_last()) + seq![
            KeyWord::Int(e.dx),
            KeyWord::Int(e.dy),
            KeyWord::Int(e.dz),
            KeyWord::Word(e.color),
        ]
    }
}

/// Words of the key of the preview of a stamp or punch.
pub open spec fn stamp_key(
    mode: PreviewMode,
    anchor: Option<VoxelCoord>,
    clip: Seq<ClipEntry>,
    origin_x: i32,
    origin_z: i32,
    debug_overlay: bool,
) -> Seq<KeyWord> {
    seq![KeyWord::Mode(mode)] + (match anchor {
        Some(a) => seq![
            KeyWord::Present,
            KeyWord::Int(a.0),
            KeyWord::Int(a.1),
            KeyWord::Int(a.2),
        ],
        None => seq![KeyWord::Absent],
    }) + clip_words(clip) + seq![
        KeyWord::Int(origin_x),
        KeyWord::Int(origin_z),
        KeyWord::Flag(debug_overlay),
    ]
}

/// Words of the key of the preview of a stamp or punch.
pub fn stamp_words(
    mode: PreviewMode,
    anchor: Option<VoxelCoord>,
    clip: &Vec<ClipEntry>,
    origin_x: i32,
    origin_z: i32,
    debug_overlay: bool,
) -> (words: Vec<KeyWord>)
    ensures
        words@ == stamp_key(mode, anchor, clip@, origin_x, origin_z, debug_overlay),
{
    let mut words: Vec<KeyWord> = Vec::new();
    words.push(KeyWord::Mode(mode));
    match anchor {
        Some(a) => {
            push_words(
                &mut words,
                &vec![
                    KeyWord::Present,
                    KeyWord::Int(a.0),
                    KeyWord::Int(a.1),
                    KeyWord::Int(a.2),
                ],
            );
        },
        None => {
            words.push(KeyWord::Absent);
        },
    }
    let ghost start = words@;
    let mut i: usize = 0;
    assert(clip@.take(0) =~= Seq::<ClipEntry>::empty());
    assert(words@ =~= start + clip_words(clip@.take(0)));
    while i < clip.len()
        invariant
            0 <= i <= clip@.len(),
            words@ == start + clip_words(clip@.take(i as int)),
        decreases clip@.len() - i,
    {
        let e = clip[i];
        words.push(KeyWord::Int(e.dx));
        words.push(KeyWord::Int(e.dy));
        words.push(KeyWord::Int(e.dz));
        words.push(KeyWord::Word(e.color));
        assert(clip@.take(i as int + 1).drop_last() =~= clip@.take(i as int));
        assert(words@ =~= start + clip_words(clip@.take(i as int + 1)));
        i += 1;
    }
    assert(clip@.take(i as int) =~= clip@);
    push_words(
        &mut words,
        &vec![
            KeyWord::Int(origin_x),
            KeyWord::Int(origin_z),
            KeyWord::Flag(debug_overlay),
        ],
    );
    assert(words@ =~= stamp_key(mode, anchor, clip@, origin_x, origin_z, debug_overlay));
    words
}

/// Cache key of the preview of a stamp or punch.
pub fn hash_stamp_preview(
    mode: PreviewMode,
    anchor: Option<VoxelCoord>,
    clip: &Vec<ClipEntry>,
    origin_x: i32,
    origin_z: i32,
    debug_overlay: bool,
) -> (r: u64)
    ensures
        possible_key(stamp_key(mode, anchor, clip@, origin_x, origin_z, debug_overlay), r),
{
    hash_words(&stamp_words(mode, anchor, clip, origin_x, origin_z, debug_overlay))
}

} // verus!
