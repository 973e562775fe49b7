//! What comes of the preview once the cells are there: the key of what would be
//! shown is made from the settings, and only what is not on display is shown anew.

use vstd::prelude::*;

use crate::collections::{entries, CoordMap};
use crate::preview::cells::{inner_coord, stamp_fits, ColoredCell};
use crate::preview::hover_keys::{
    cell_key, cell_words, clipboard_key, clipboard_words, generator_key, generator_words,
    metaball_key, metaball_words, skeleton_key, skeleton_words, stroke_key, stroke_key_of,
};
use crate::preview::keys::possible_key;
use crate::preview::mode::{EditTool, Generator, PreviewMode};
use crate::preview::plan::{
    anchor_of, ball_of, cell_comes_to, cell_preview, colored_comes_to, colored_generator_preview,
    context_of, generator_comes_to, generator_preview, lit, metaball_step, polygon_comes_to,
    polygon_preview,
    preview_context, same_key, skeleton_preview, skeleton_step, stamp_comes_to, stamp_preview,
    stroke_comes_to, stroke_preview, MetaballStep, PreviewMeshPrepared, PreviewNext, SkeletonStep,
    StrokeStep,
};
use crate::preview::session_keys::{BoneSession, ClipEntry, SquishyMode, SquishySession};
use crate::preview::settings::{PreviewFacts, PreviewHoverContext};
use crate::voxelle::VoxelCoord;

verus! {

/// What comes of the cells of a generator.
pub fn answer_cells(
    f: &PreviewFacts,
    h: &PreviewHoverContext,
    generator: Generator,
    cells: &[VoxelCoord],
    shown: Option<u64>,
) -> (r: PreviewNext)
    requires
        lit(generator) ==> forall|i: int|
            0 <= i < cells@.len() ==> inner_coord(#[trigger] cells@[i]),
    ensures
        exists|key: u64| #[trigger]
            possible_key(generator_words(*f, *h, generator), key) && generator_comes_to(
                preview_context(*f, *h),
                generator,
                h.color,
                cells@,
                key,
                shown,
                r,
            ),
{
    let key: u64 = generator_key(f, h, generator);
    generator_preview(&context_of(f, h), generator, h.color, cells, key, shown)
}

/// What comes of the coloured cells of a generator.
pub fn answer_colored_cells(
    f: &PreviewFacts,
    h: &PreviewHoverContext,
    generator: Generator,
    cells: &Vec<ColoredCell>,
    shown: Option<u64>,
) -> (r: PreviewNext)
    requires
        forall|i: int| 0 <= i < cells@.len() ==> inner_coord((#[trigger] cells@[i]).cell),
    ensures
        exists|key: u64| #[trigger]
            possible_key(generator_words(*f, *h, generator), key) && colored_comes_to(
                preview_context(*f, *h),
                h.color,
                cells@,
                key,
                shown,
                r,
            ),
{
    let key: u64 = generator_key(f, h, generator);
    colored_generator_preview(&context_of(f, h), h.color, cells, key, shown)
}

/// What is done for a skeleton session.
pub fn answer_skeleton(
    f: &PreviewFacts,
    h: &PreviewHoverContext,
    session: &BoneSession,
    shown: Option<u64>,
) -> (r: SkeletonStep)
    ensures
        exists|key: u64| #[trigger]
            possible_key(skeleton_words(*f, *h, *session), key) && r == skeleton_step(
                preview_context(*f, *h),
                session.joints@.len() as int,
                key,
                shown,
            ),
{
    let key: u64 = skeleton_key(f, h, session);
    skeleton_preview(&context_of(f, h), session.joints.len(), key, shown)
}

/// What is done for a metaball session with what the pointer picked: a cell where
/// clicks add, a ball where they take away.
pub fn answer_metaballs(
    f: &PreviewFacts,
    h: &PreviewHoverContext,
    session: &SquishySession,
    cell: Option<VoxelCoord>,
    ball: Option<u32>,
    shown: Option<u64>,
) -> (r: MetaballStep)
    ensures
        exists|key: u64| #[trigger]
            possible_key(
                metaball_words(
                    *f,
                    *h,
                    *session,
                    anchor_of(session.mode, cell),
                    ball_of(session.mode, ball),
                ),
                key,
            ) && r == metaball_step(anchor_of(session.mode, cell), key, shown),
{
    let anchor: Option<VoxelCoord> = if session.mode == SquishyMode::Add {
        cell
    } else {
        None
    };
    let ball: Option<u32> = if session.mode == SquishyMode::Delete {
        ball
    } else {
        None
    };
    let key: u64 = metaball_key(f, h, session, anchor, ball);
    if same_key(shown, key) {
        MetaballStep::Noop
    } else {
        MetaballStep::Build { key, anchor }
    }
}

/// What comes of the cells that a polygon selection reaches.
pub fn answer_polygon(
    f: &PreviewFacts,
    h: &PreviewHoverContext,
    targets: &Vec<VoxelCoord>,
    voxel_map: &CoordMap,
    shown: Option<u64>,
) -> (r: PreviewMeshPrepared)
    ensures
        exists|key: u64| #[trigger]
            stroke_key_of(*f, *h, targets@, entries(*voxel_map), key) && polygon_comes_to(
                h.color,
                targets@,
                key,
                shown,
                r,
            ),
{
    let key: u64 = stroke_key(f, h, targets, voxel_map);
    polygon_preview(h.color, targets.as_slice(), key, shown)
}

/// What comes of the cell under the pointer, and of its object. A selection has a
/// fixed colour.
pub fn answer_cell(
    f: &PreviewFacts,
    h: &PreviewHoverContext,
    cell: Option<(VoxelCoord, u32)>,
    shown: Option<u64>,
) -> (r: PreviewMeshPrepared)
    ensures
        exists|key: u64| #[trigger]
            possible_key(cell_words(*f, *h, cell), key) && cell_comes_to(
                f.mode,
                if f.mode == PreviewMode::Select {
                    0
                } else {
                    h.color
                },
                cell,
                key,
                shown,
                r,
            ),
{
    let key: u64 = cell_key(f, h, cell);
    let color: u32 = if f.mode == PreviewMode::Select {
        0
    } else {
        h.color
    };
    cell_preview(f.mode, color, cell, key, shown)
}

/// What comes of the cell that the clipboard is placed at.
pub fn answer_stamp(
    f: &PreviewFacts,
    h: &PreviewHoverContext,
    clip: &Vec<ClipEntry>,
    anchor: Option<VoxelCoord>,
    off_x: i32,
    off_z: i32,
    shown: Option<u64>,
) -> (r: PreviewMeshPrepared)
    requires
        anchor matches Some(a) ==> stamp_fits(clip@, a, off_x as int, off_z as int),
    ensures
        exists|key: u64| #[trigger]
            possible_key(clipboard_words(*f, *h, anchor, clip@), key) && stamp_comes_to(
                f.mode == PreviewMode::Stamp,
                h.color,
                clip@,
                anchor,
                off_x,
                off_z,
                key,
                shown,
                r,
            ),
{
    let key: u64 = clipboard_key(f, h, anchor, clip);
    stamp_preview(
        f.mode == PreviewMode::Stamp,
        h.color,
        clip,
        anchor,
        off_x,
        off_z,
        key,
        shown,
    )
}

/// What comes of the cells that a stroke reaches.
pub fn answer_stroke(
    f: &PreviewFacts,
    h: &PreviewHoverContext,
    tool: EditTool,
    targets: &Vec<VoxelCoord>,
    voxel_map: &CoordMap,
    shown: Option<u64>,
) -> (r: StrokeStep)
    ensures
        exists|key: u64| #[trigger]
            stroke_key_of(*f, *h, targets@, entries(*voxel_map), key) && stroke_comes_to(
                preview_context(*f, *h),
                tool,
                h.color,
                targets@,
                key,
                shown,
                r,
            ),
{
    let key: u64 = stroke_key(f, h, targets, voxel_map);
    stroke_preview(&context_of(f, h), tool, h.color, targets.as_slice(), key, shown)
}

} // verus!
