//! What the course of the preview keeps to, whatever is set.

use vstd::prelude::*;

use crate::distinct::law_first_occurrences;
use crate::preview::cell_laws::{law_shell_leaves_out_the_enclosed, share_a_face};
use crate::preview::cells::{inner_coord, law_shell};
use crate::preview::mode::{EditTool, Generator, PreviewMode};
use crate::preview::plan::{
    after_generator, cell_comes_to, generator_comes_to, metaballs_come_to, preview_start,
    skeleton_step, stroke_comes_to, with_anchor, PreviewAsk, PreviewContext, PreviewExtra,
    PreviewLook, PreviewMeshPrepared, PreviewNext, PreviewStart, SkeletonStep, StrokeStep,
};
use crate::voxelle::VoxelCoord;

verus! {

/// A mode in which a click on the surface fills a cell.
pub open spec fn click_fills(mode: PreviewMode) -> bool {
    mode == PreviewMode::Add
}

/// A mode in which a click acts on one filled cell.
pub open spec fn click_acts_on_filled(mode: PreviewMode) -> bool {
    mode == PreviewMode::Remove || mode == PreviewMode::Paint || mode == PreviewMode::Select
}

/// The preview of a single cell asks for the cell that a click acts on: the empty
/// one in front of the surface exactly where the mode fills cells, and the filled
/// one where it removes, paints or selects. No other mode asks for a single cell.
pub proof fn law_single_cell_is_the_one_clicked(ctx: PreviewContext, in_front: bool)
    ensures
        preview_start(ctx) == PreviewStart::Ask(PreviewAsk::CellAtPointer { in_front }) ==> {
            &&& in_front <==> click_fills(ctx.mode)
            &&& !in_front <==> click_acts_on_filled(ctx.mode)
        },
        ctx.mode == PreviewMode::Add && after_generator(ctx) == PreviewStart::Ask(
            PreviewAsk::CellAtPointer { in_front },
        ) ==> in_front,
{
}

/// The preview of a stroke asks for the cells that the tool of the mode reaches, and
/// only where brush previews are on.
pub proof fn law_stroke_is_of_the_mode(ctx: PreviewContext, tool: EditTool)
    ensures
        preview_start(ctx) == PreviewStart::Ask(PreviewAsk::StrokeTargets(tool)) ==> {
            &&& ctx.use_brush_preview
            &&& tool == EditTool::Add <==> ctx.mode == PreviewMode::Add
            &&& tool == EditTool::Remove <==> ctx.mode == PreviewMode::Remove
            &&& tool == EditTool::Paint <==> ctx.mode == PreviewMode::Paint
        },
        ctx.mode == PreviewMode::Add && after_generator(ctx) == PreviewStart::Ask(
            PreviewAsk::StrokeTargets(tool),
        ) ==> ctx.use_brush_preview && tool == EditTool::Add,
{
}

/// With a model open, the pointer in the viewport and nothing generated, adding,
/// removing and painting always ask for something: for the cells of a stroke where
/// brush previews are on, else for one cell.
pub proof fn law_tools_show_what_they_reach(ctx: PreviewContext)
    requires
        !ctx.suppressed,
        ctx.model,
        ctx.cursor,
        ctx.generator is None,
        ctx.mode == PreviewMode::Add || ctx.mode == PreviewMode::Remove || ctx.mode
            == PreviewMode::Paint,
    ensures
        ctx.use_brush_preview <==> preview_start(ctx) matches PreviewStart::Ask(
            PreviewAsk::StrokeTargets(_),
        ),
        !ctx.use_brush_preview <==> preview_start(ctx) matches PreviewStart::Ask(
            PreviewAsk::CellAtPointer { in_front: _ },
        ),
{
}

/// A stamp is placed in front of the surface and a punch on it; neither is shown
/// without something on the clipboard.
pub proof fn law_stamp_lands_in_front_and_punch_inside(ctx: PreviewContext, in_front: bool)
    ensures
        preview_start(ctx) == PreviewStart::Ask(PreviewAsk::StampAnchor { in_front }) ==> {
            &&& in_front <==> ctx.mode == PreviewMode::Stamp
            &&& !in_front <==> ctx.mode == PreviewMode::Punch
            &&& ctx.clipboard matches Some(n) && n > 0
        },
        !ctx.suppressed && ctx.model && ctx.cursor && (ctx.mode == PreviewMode::Stamp || ctx.mode
            == PreviewMode::Punch) && (ctx.clipboard matches Some(n) && n > 0) ==> preview_start(
            ctx,
        ) == PreviewStart::Ask(
            PreviewAsk::StampAnchor { in_front: ctx.mode == PreviewMode::Stamp },
        ),
{
}

/// A polygon is shown only while one is being placed in a selection: with corners
/// set, as a polygon stroke, and with brush previews on.
pub proof fn law_polygon_is_shown_while_placed(ctx: PreviewContext)
    ensures
        preview_start(ctx) == PreviewStart::Ask(PreviewAsk::PolygonTargets) <==> {
            &&& !ctx.suppressed && ctx.model && ctx.cursor
            &&& ctx.mode == PreviewMode::Select
            &&& ctx.polygon_stroke && ctx.polygon_vertices >= 1 && ctx.use_brush_preview
        },
{
}

/// The cells of a generator are asked for only while adding, and only of the
/// generator that is set; each generator is asked in one way, with colours for
/// plants and animals and without for the others.
pub proof fn law_generators_show_while_adding(ctx: PreviewContext, g: Generator)
    ensures
        preview_start(ctx) == PreviewStart::Ask(PreviewAsk::Cells(g)) ==> ctx.mode
            == PreviewMode::Add && ctx.generator == Some(g) && g != Generator::Flora && g
            != Generator::Insecta && g != Generator::Fauna && g != Generator::Piscina,
        preview_start(ctx) == PreviewStart::Ask(PreviewAsk::ColoredCells(g)) ==> ctx.mode
            == PreviewMode::Add && ctx.generator == Some(g) && (g == Generator::Flora || g
            == Generator::Insecta || g == Generator::Fauna || g == Generator::Piscina),
        preview_start(ctx) == PreviewStart::Ask(PreviewAsk::ShapeAtGizmo) ==> ctx.mode
            == PreviewMode::Add && ctx.generator == Some(Generator::Shape) && ctx.gizmo_center,
        preview_start(ctx) == PreviewStart::Ask(PreviewAsk::RoofPins) ==> ctx.mode
            == PreviewMode::Add && ctx.generator == Some(Generator::Roof) && 1 <= ctx.roof_pins <= 2,
{
}

/// A cloth or a roof shows its cells from three pins on, wherever the pointer is;
/// a shape at its gizmo likewise.
pub proof fn law_pinned_generators_need_no_pointer(ctx: PreviewContext, cursor: bool)
    requires
        !ctx.suppressed,
        ctx.model,
        ctx.mode == PreviewMode::Add,
    ensures
        ctx.generator == Some(Generator::Cloth) && ctx.cloth_pins > 2 ==> preview_start(
            (PreviewContext { cursor, ..ctx }),
        ) == PreviewStart::Ask(PreviewAsk::Cells(Generator::Cloth)),
        ctx.generator == Some(Generator::Roof) && ctx.roof_pins > 2 ==> preview_start(
            (PreviewContext { cursor, ..ctx }),
        ) == PreviewStart::Ask(PreviewAsk::Cells(Generator::Roof)),
        ctx.generator == Some(Generator::Roof) && 0 < ctx.roof_pins <= 2 ==> preview_start(
            (PreviewContext { cursor, ..ctx }),
        ) == PreviewStart::Ask(PreviewAsk::RoofPins),
        ctx.generator == Some(Generator::Shape) && ctx.gizmo_center ==> preview_start(
            (PreviewContext { cursor, ..ctx }),
        ) == PreviewStart::Ask(PreviewAsk::ShapeAtGizmo),
{
}

/// Any other generator follows the pointer: with the pointer in the viewport it is
/// asked for its cells, a rope once its first end is set; without the pointer
/// nothing is shown.
pub proof fn law_other_generators_follow_the_pointer(ctx: PreviewContext)
    requires
        !ctx.suppressed,
        ctx.model,
        ctx.mode == PreviewMode::Add,
        ctx.generator matches Some(g) && g != Generator::Cloth && g != Generator::Roof && !(g
            == Generator::Shape && ctx.gizmo_center),
    ensures
        !ctx.cursor ==> preview_start(ctx) == PreviewStart::Clear,
        ctx.cursor && (ctx.generator == Some(Generator::Rope) ==> ctx.rope_started) ==> {
            ||| preview_start(ctx) == PreviewStart::Ask(PreviewAsk::Cells(ctx.generator->0))
            ||| preview_start(ctx) == PreviewStart::Ask(PreviewAsk::ColoredCells(ctx.generator->0))
        },
{
}

/// Where nothing is generated the preview goes on as if no generator were set.
pub proof fn law_generator_without_cells_is_as_none(ctx: PreviewContext)
    requires
        !ctx.suppressed,
        ctx.model,
        ctx.mode == PreviewMode::Add,
    ensures
        after_generator(ctx) == preview_start((PreviewContext { generator: None, ..ctx })),
{
}

/// A suppressed preview stays as it is; navigating and flying show nothing; a
/// skeleton session is shown in bone mode and a metaball session in squishy mode,
/// and nowhere else.
pub proof fn law_sessions_have_their_modes(ctx: PreviewContext)
    ensures
        preview_start(ctx) == PreviewStart::Noop <==> ctx.suppressed,
        !ctx.suppressed && (ctx.mode == PreviewMode::Navigate || ctx.mode == PreviewMode::Fly
            || ctx.mode == PreviewMode::SelectExtrude) ==> preview_start(ctx)
            == PreviewStart::Clear,
        preview_start(ctx) == PreviewStart::Ask(PreviewAsk::Skeleton) <==> !ctx.suppressed
            && ctx.mode == PreviewMode::Bone,
        preview_start(ctx) == PreviewStart::Ask(PreviewAsk::Metaballs) <==> !ctx.suppressed
            && ctx.model && ctx.cursor && ctx.mode == PreviewMode::Squishy,
{
}

/// The cell under the pointer is shown as what a click does to it: filled while
/// adding, painted while painting, else marked; a selected one in the colours of
/// selections.
pub proof fn law_cell_is_shown_as_its_tool(
    mode: PreviewMode,
    color: u32,
    cell: VoxelCoord,
    object_id: u32,
    key: u64,
    shown: Option<u64>,
    r: PreviewMeshPrepared,
)
    requires
        cell_comes_to(mode, color, Some((cell, object_id)), key, shown, r),
        shown != Some(key),
    ensures
        r matches PreviewMeshPrepared::Upload { cache_key, mesh } && {
            &&& cache_key == key
            &&& mesh.cells@ == seq![cell]
            &&& mesh.style.color == color
            &&& mesh.style.tool == EditTool::Add <==> mode == PreviewMode::Add
            &&& mesh.style.tool == EditTool::Paint <==> mode == PreviewMode::Paint
            &&& mesh.style.look == PreviewLook::Selected { object_id } <==> mode
                == PreviewMode::Select
            &&& mesh.style.look == PreviewLook::Cell { object_id } <==> mode != PreviewMode::Select
        },
{
}

/// The preview of a generator that is lit shows each of its cells that can be seen,
/// once, and no other; any other generator shows each of its cells once. Nothing is
/// built anew under the key that is on display.
pub proof fn law_generator_shows_its_cells(
    ctx: PreviewContext,
    g: Generator,
    color: u32,
    cells: Seq<VoxelCoord>,
    key: u64,
    shown: Option<u64>,
    r: PreviewNext,
    c: VoxelCoord,
)
    requires
        generator_comes_to(ctx, g, color, cells, key, shown, r),
        cells.contains(c),
        inner_coord(c),
    ensures
        shown == Some(key) <==> r == PreviewNext::Done(PreviewMeshPrepared::Noop),
        r matches PreviewNext::Done(PreviewMeshPrepared::GenUpload { cache_key, mesh }) ==> {
            &&& cache_key == key
            &&& mesh.style.tool == EditTool::Add && mesh.style.color == color
            &&& mesh.cells@.no_duplicates()
            &&& mesh.cells@.contains(c) <==> exists|d: VoxelCoord|
                share_a_face(c, d) && !#[trigger] cells.contains(d)
            &&& g != Generator::Rope && g != Generator::Cloth && g != Generator::Roof
        },
        r matches PreviewNext::Done(PreviewMeshPrepared::Upload { cache_key, mesh }) ==> {
            &&& cache_key == key
            &&& mesh.style.tool == EditTool::Add && mesh.style.color == color
            &&& mesh.cells@.no_duplicates()
            &&& mesh.cells@.contains(c)
            &&& mesh.style.extra == PreviewExtra::PinMarkers <==> g == Generator::Roof
        },
{
    law_shell(cells);
    law_shell_leaves_out_the_enclosed(cells, c);
    law_first_occurrences(cells);
}

/// The preview of a stroke shows each cell that it reaches once, as its tool does,
/// in the colour that is set or, with more than one, in those of the palette; the
/// corners of a polygon are marked. Nothing is shown of a stroke that reaches nothing
/// and has no corners, and nothing is built anew under the key on display.
pub proof fn law_stroke_shows_what_it_reaches(
    ctx: PreviewContext,
    tool: EditTool,
    color: u32,
    targets: Seq<VoxelCoord>,
    key: u64,
    shown: Option<u64>,
    r: StrokeStep,
    c: VoxelCoord,
)
    requires
        stroke_comes_to(ctx, tool, color, targets, key, shown, r),
    ensures
        ({
            let corners = ctx.polygon_stroke && ctx.polygon_vertices >= 1;
            &&& shown == Some(key) <==> r == StrokeStep::Done(PreviewMeshPrepared::Noop)
            &&& shown != Some(key) && targets.len() == 0 && !corners <==> r == StrokeStep::Done(
                PreviewMeshPrepared::Clear,
            )
            &&& r is TryRaw ==> !corners && ctx.palette < 2
            &&& forall|p: PreviewMeshPrepared|
                (r == StrokeStep::Done(p) || r == StrokeStep::TryRaw(p)) ==> (#[trigger] settled(p)
                    || {
                    &&& p matches PreviewMeshPrepared::Upload { cache_key, mesh } && {
                        &&& cache_key == key
                        &&& mesh.cells@.no_duplicates()
                        &&& mesh.cells@.contains(c) <==> targets.contains(c)
                        &&& mesh.style.tool == tool && mesh.style.color == color
                        &&& mesh.style.look == PreviewLook::Palette <==> ctx.palette >= 2
                        &&& mesh.style.extra == PreviewExtra::PolygonMarkers <==> corners
                    }
                })
        }),
{
    law_first_occurrences(targets);
}

/// Nothing is built: what is shown stays, or is cleared.
pub open spec fn settled(p: PreviewMeshPrepared) -> bool {
    p is Noop || p is Clear
}

/// While the gizmo is dragged fewer cells of a skeleton session are shown; a session
/// without joints or without a model shows nothing, and the one on display stays.
pub proof fn law_dragging_shows_fewer_cells(
    ctx: PreviewContext,
    joints: int,
    key: u64,
    shown: Option<u64>,
)
    requires
        joints >= 0,
    ensures
        ({
            let at_rest = skeleton_step(
                (PreviewContext { gizmo_drag: false, ..ctx }),
                joints,
                key,
                shown,
            );
            let dragged = skeleton_step(
                (PreviewContext { gizmo_drag: true, ..ctx }),
                joints,
                key,
                shown,
            );
            &&& at_rest is Build <==> dragged is Build
            &&& at_rest is Build <==> shown != Some(key) && joints > 0 && ctx.model
            &&& at_rest is Noop <==> shown == Some(key)
            &&& at_rest matches SkeletonStep::Build { max_voxels, key: k } ==> {
                &&& k == key
                &&& dragged matches SkeletonStep::Build { max_voxels: fewer, key: l } && 2 * fewer
                    == max_voxels && l == key
            }
        }),
{
}

/// The preview of a metaball session shows each of its cells and the one that a click
/// adds at, once; it has rings where there is a ball or a click adds one; it is
/// cleared where there is neither a cell nor a ring.
pub proof fn law_metaballs_show_the_anchor(
    color: u32,
    balls: int,
    anchor: Option<VoxelCoord>,
    coords: Seq<VoxelCoord>,
    key: u64,
    r: PreviewMeshPrepared,
    c: VoxelCoord,
)
    requires
        balls >= 0,
        metaballs_come_to(color, balls, anchor, coords, key, r),
    ensures
        r is Clear <==> coords.len() == 0 && balls == 0 && anchor is None,
        !(r is Clear) ==> (r matches PreviewMeshPrepared::Upload { cache_key, mesh } && {
            &&& cache_key == key
            &&& mesh.cells@.no_duplicates()
            &&& mesh.cells@.contains(c) <==> coords.contains(c) || anchor == Some(c)
            &&& mesh.style.extra == PreviewExtra::PickRings <==> balls >= 1 || anchor is Some
        }),
{
    let all = with_anchor(coords, anchor);
    law_first_occurrences(all);
    assert(all.contains(c) <==> coords.contains(c) || anchor == Some(c)) by {
        if anchor is Some {
            assert(all[coords.len() as int] == anchor->0);
            if coords.contains(c) {
                let i = choose|i: int| 0 <= i < coords.len() && coords[i] == c;
                assert(all[i] == c);
            }
            if all.contains(c) {
                let i = choose|i: int| 0 <= i < all.len() && all[i] == c;
                if i < coords.len() {
                    assert(coords[i] == c);
                }
            }
        }
    }
}

} // verus!
