//! What the hover preview shows. Picking cells under the pointer, running
//! generators and meshing happen outside: `prepare_preview_mesh` says which of
//! them is needed, and the functions after it say what comes of the answer. A
//! preview whose cache key is the one on display is not built again.

use vstd::prelude::*;

use crate::collections::{coord_map_get, entries, CoordMap};
use crate::distinct::{first_occurrences, unique_cells};
use crate::preview::cells::{
    coords_of, inner_coord, recolored, shell, stamp_cells, stamp_fits, stamped, visible_cells,
    visible_colored, ColoredCell,
};
use crate::preview::mode::{
    generator_from_name, generator_named, EditTool, Generator, PreviewMode,
};
use crate::preview::session_keys::{ClipEntry, SquishyMode};
use crate::preview::settings::{PreviewFacts, PreviewHoverContext};
use crate::voxelle::VoxelCoord;

verus! {

/// What the course of the preview depends on. `model` says that a model and its
/// cell map are open.
#[derive(Clone, Copy, Debug)]
pub struct PreviewContext {
    pub suppressed: bool,
    pub mode: PreviewMode,
    pub cursor: bool,
    pub model: bool,
    pub generator: Option<Generator>,
    pub rope_started: bool,
    pub cloth_pins: usize,
    pub roof_pins: usize,
    pub gizmo_center: bool,
    pub gizmo_drag: bool,
    pub polygon_stroke: bool,
    pub polygon_vertices: usize,
    pub use_brush_preview: bool,
    pub clipboard: Option<usize>,
    pub palette: usize,
}

/// The generator that is set, if its name is one.
pub open spec fn generator_set(h: PreviewHoverContext) -> Option<Generator> {
    match h.generator_kind {
        Some(name) => generator_named(name@),
        None => None,
    }
}

/// What the course of the preview depends on, taken from the settings and the facts.
pub open spec fn preview_context(f: PreviewFacts, h: PreviewHoverContext) -> PreviewContext {
    PreviewContext {
        suppressed: f.suppressed,
        mode: f.mode,
        cursor: f.cursor is Some,
        model: f.model,
        generator: generator_set(h),
        rope_started: h.generator_rope_first_voxel is Some,
        cloth_pins: h.generator_cloth_pins.len(),
        roof_pins: h.generator_roof_pins.len(),
        gizmo_center: f.gizmo_origin is Some,
        gizmo_drag: f.bone_gizmo_drag,
        polygon_stroke: h.stroke_mode.polygon,
        polygon_vertices: h.stroke_aux.polygon_vertices.len(),
        use_brush_preview: h.use_brush_preview,
        clipboard: f.clipboard,
        palette: h.palette.len(),
    }
}

/// What the course of the preview depends on, taken from the settings and the facts.
pub fn context_of(f: &PreviewFacts, h: &PreviewHoverContext) -> (r: PreviewContext)
    ensures
        r == preview_context(*f, *h),
{
    PreviewContext {
        suppressed: f.suppressed,
        mode: f.mode,
        cursor: f.cursor.is_some(),
        model: f.model,
        generator: match &h.generator_kind {
            Some(name) => generator_from_name(name.as_str()),
            None => None,
        },
        rope_started: h.generator_rope_first_voxel.is_some(),
        cloth_pins: h.generator_cloth_pins.len(),
        roof_pins: h.generator_roof_pins.len(),
        gizmo_center: f.gizmo_origin.is_some(),
        gizmo_drag: f.bone_gizmo_drag,
        polygon_stroke: h.stroke_mode.polygon,
        polygon_vertices: h.stroke_aux.polygon_vertices.len(),
        use_brush_preview: h.use_brush_preview,
        clipboard: f.clipboard,
        palette: h.palette.len(),
    }
}

/// What has to be found out for the preview.
#[derive(Clone, Copy, Debug, PartialEq, Eq, Structural)]
pub enum PreviewAsk {
    /// The cells of a generator, without colours of their own.
    Cells(Generator),
    /// The cells of a generator, each with its colour.
    ColoredCells(Generator),
    /// The cells of a shape at the gizmo.
    ShapeAtGizmo,
    /// Nothing: the pins of a roof, too few for cells.
    RoofPins,
    /// The skeleton session.
    Skeleton,
    /// The metaball session.
    Metaballs,
    /// The cells that a polygon selection reaches.
    PolygonTargets,
    /// The cell under the pointer: the empty one in front, or the filled one.
    CellAtPointer { in_front: bool },
    /// The cell that the clipboard is placed at: the empty one in front, or the filled one.
    StampAnchor { in_front: bool },
    /// The cells that a stroke reaches.
    StrokeTargets(EditTool),
}

/// How the preview goes on.
#[derive(Clone, Copy, Debug, PartialEq, Eq, Structural)]
pub enum PreviewStart {
    Noop,
    Clear,
    Ask(PreviewAsk),
}

/// Whether a polygon selection is being placed.
pub open spec fn polygon_placing(ctx: PreviewContext) -> bool {
    ctx.polygon_stroke && ctx.polygon_vertices > 0 && ctx.use_brush_preview
}

/// How the preview goes on where no generator shows anything.
pub open spec fn brush_stage(ctx: PreviewContext) -> PreviewStart {
    match ctx.mode {
        PreviewMode::Select => if polygon_placing(ctx) {
            PreviewStart::Ask(PreviewAsk::PolygonTargets)
        } else {
            PreviewStart::Ask(PreviewAsk::CellAtPointer { in_front: false })
        },
        PreviewMode::Stamp | PreviewMode::Punch => match ctx.clipboard {
            Some(n) => if n > 0 {
                PreviewStart::Ask(
                    PreviewAsk::StampAnchor { in_front: ctx.mode == PreviewMode::Stamp },
                )
            } else {
                PreviewStart::Clear
            },
            None => PreviewStart::Clear,
        },
        PreviewMode::Add => if ctx.use_brush_preview {
            PreviewStart::Ask(PreviewAsk::StrokeTargets(EditTool::Add))
        } else {
            PreviewStart::Ask(PreviewAsk::CellAtPointer { in_front: true })
        },
        PreviewMode::Remove => if ctx.use_brush_preview {
            PreviewStart::Ask(PreviewAsk::StrokeTargets(EditTool::Remove))
        } else {
            PreviewStart::Ask(PreviewAsk::CellAtPointer { in_front: false })
        },
        PreviewMode::Paint => if ctx.use_brush_preview {
            PreviewStart::Ask(PreviewAsk::StrokeTargets(EditTool::Paint))
        } else {
            PreviewStart::Ask(PreviewAsk::CellAtPointer { in_front: false })
        },
        _ => PreviewStart::Clear,
    }
}

/// What a generator needs to show something, with the pointer in the viewport or
/// without it; `None` where it shows nothing.
pub open spec fn generator_ask(ctx: PreviewContext) -> Option<PreviewAsk> {
    match ctx.generator {
        Some(Generator::Cloth) => if ctx.cloth_pins >= 3 {
            Some(PreviewAsk::Cells(Generator::Cloth))
        } else {
            None
        },
        Some(Generator::Roof) => if ctx.roof_pins >= 3 {
            Some(PreviewAsk::Cells(Generator::Roof))
        } else if ctx.roof_pins > 0 {
            Some(PreviewAsk::RoofPins)
        } else {
            None
        },
        Some(Generator::Shape) => if ctx.gizmo_center {
            Some(PreviewAsk::ShapeAtGizmo)
        } else if ctx.cursor {
            Some(PreviewAsk::Cells(Generator::Shape))
        } else {
            None
        },
        Some(Generator::Rope) => if ctx.cursor && ctx.rope_started {
            Some(PreviewAsk::Cells(Generator::Rope))
        } else {
            None
        },
        Some(Generator::Rocks) => if ctx.cursor {
            Some(PreviewAsk::Cells(Generator::Rocks))
        } else {
            None
        },
        Some(Generator::Grass) => if ctx.cursor {
            Some(PreviewAsk::Cells(Generator::Grass))
        } else {
            None
        },
        Some(Generator::Ashlar) => if ctx.cursor {
            Some(PreviewAsk::Cells(Generator::Ashlar))
        } else {
            None
        },
        Some(g) => if ctx.cursor {
            Some(PreviewAsk::ColoredCells(g))
        } else {
            None
        },
        None => None,
    }
}

/// How the preview starts.
pub open spec fn preview_start(ctx: PreviewContext) -> PreviewStart {
    if ctx.suppressed {
        PreviewStart::Noop
    } else if ctx.mode == PreviewMode::Navigate || ctx.mode == PreviewMode::Fly {
        PreviewStart::Clear
    } else if ctx.mode == PreviewMode::Bone {
        PreviewStart::Ask(PreviewAsk::Skeleton)
    } else if !ctx.model {
        PreviewStart::Clear
    } else if ctx.mode == PreviewMode::Add {
        match generator_ask(ctx) {
            Some(ask) => PreviewStart::Ask(ask),
            None => if ctx.cursor {
                brush_stage(ctx)
            } else {
                PreviewStart::Clear
            },
        }
    } else if !ctx.cursor {
        PreviewStart::Clear
    } else if ctx.mode == PreviewMode::Squishy {
        PreviewStart::Ask(PreviewAsk::Metaballs)
    } else {
        brush_stage(ctx)
    }
}

/// How the preview goes on where no generator shows anything.
fn start_brush(ctx: &PreviewContext) -> (r: PreviewStart)
    ensures
        r == brush_stage(*ctx),
{
    match ctx.mode {
        PreviewMode::Select => {
            if ctx.polygon_stroke && ctx.polygon_vertices > 0 && ctx.use_brush_preview {
                PreviewStart::Ask(PreviewAsk::PolygonTargets)
            } else {
                PreviewStart::Ask(PreviewAsk::CellAtPointer { in_front: false })
            }
        },
        PreviewMode::Stamp => start_stamp(ctx.clipboard, true),
        PreviewMode::Punch => start_stamp(ctx.clipboard, false),
        PreviewMode::Add => start_tool(ctx.use_brush_preview, EditTool::Add),
        PreviewMode::Remove => start_tool(ctx.use_brush_preview, EditTool::Remove),
        PreviewMode::Paint => start_tool(ctx.use_brush_preview, EditTool::Paint),
        _ => PreviewStart::Clear,
    }
}

fn start_stamp(clipboard: Option<usize>, in_front: bool) -> (r: PreviewStart)
    ensures
        r == (match clipboard {
            Some(n) => if n > 0 {
                PreviewStart::Ask(PreviewAsk::StampAnchor { in_front })
            } else {
                PreviewStart::Clear
            },
            None => PreviewStart::Clear,
        }),
{
    match clipboard {
        Some(n) => {
            if n > 0 {
                PreviewStart::Ask(PreviewAsk::StampAnchor { in_front })
            } else {
                PreviewStart::Clear
            }
        },
        None => PreviewStart::Clear,
    }
}

fn start_tool(use_brush_preview: bool, tool: EditTool) -> (r: PreviewStart)
    ensures
        r == (if use_brush_preview {
            PreviewStart::Ask(PreviewAsk::StrokeTargets(tool))
        } else {
            PreviewStart::Ask(PreviewAsk::CellAtPointer { in_front: tool == EditTool::Add })
        }),
{
    if use_brush_preview {
        PreviewStart::Ask(PreviewAsk::StrokeTargets(tool))
    } else {
        PreviewStart::Ask(PreviewAsk::CellAtPointer { in_front: tool == EditTool::Add })
    }
}

fn start_generator(ctx: &PreviewContext) -> (r: Option<PreviewAsk>)
    ensures
        r == generator_ask(*ctx),
{
    match ctx.generator {
        None => None,
        Some(g) => match g {
            Generator::Cloth => {
                if ctx.cloth_pins >= 3 {
                    Some(PreviewAsk::Cells(g))
                } else {
                    None
                }
            },
            Generator::Roof => {
                if ctx.roof_pins >= 3 {
                    Some(PreviewAsk::Cells(g))
                } else if ctx.roof_pins > 0 {
                    Some(PreviewAsk::RoofPins)
                } else {
                    None
                }
            },
            Generator::Shape => {
                if ctx.gizmo_center {
                    Some(PreviewAsk::ShapeAtGizmo)
                } else if ctx.cursor {
                    Some(PreviewAsk::Cells(g))
                } else {
                    None
                }
            },
            Generator::Rope => {
                if ctx.cursor && ctx.rope_started {
                    Some(PreviewAsk::Cells(g))
                } else {
                    None
                }
            },
            Generator::Rocks | Generator::Grass | Generator::Ashlar => {
                if ctx.cursor {
                    Some(PreviewAsk::Cells(g))
                } else {
                    None
                }
            },
            Generator::Flora | Generator::Insecta | Generator::Fauna | Generator::Piscina => {
                if ctx.cursor {
                    Some(PreviewAsk::ColoredCells(g))
                } else {
                    None
                }
            },
        },
    }
}

/// How the preview starts: nothing changes, nothing is shown, or something has to
/// be found out first. Generators that go by their pins or the gizmo show without
/// the pointer too.
pub fn prepare_preview_mesh(f: &PreviewFacts, h: &PreviewHoverContext) -> (r: PreviewStart)
    ensures
        r == preview_start(preview_context(*f, *h)),
{
    start_preview(&context_of(f, h))
}

/// How the preview starts.
pub fn start_preview(ctx: &PreviewContext) -> (r: PreviewStart)
    ensures
        r == preview_start(*ctx),
{
    if ctx.suppressed {
        return PreviewStart::Noop;
    }
    match ctx.mode {
        PreviewMode::Navigate | PreviewMode::Fly => {
            return PreviewStart::Clear;
        },
        PreviewMode::Bone => {
            return PreviewStart::Ask(PreviewAsk::Skeleton);
        },
        _ => {},
    }
    if !ctx.model {
        return PreviewStart::Clear;
    }
    if ctx.mode == PreviewMode::Add {
        match start_generator(ctx) {
            Some(ask) => PreviewStart::Ask(ask),
            None => {
                if ctx.cursor {
                    start_brush(ctx)
                } else {
                    PreviewStart::Clear
                }
            },
        }
    } else if !ctx.cursor {
        PreviewStart::Clear
    } else if ctx.mode == PreviewMode::Squishy {
        PreviewStart::Ask(PreviewAsk::Metaballs)
    } else {
        start_brush(ctx)
    }
}

/// What is drawn besides the cells.
#[derive(Clone, Copy, Debug, PartialEq, Eq, Structural)]
pub enum PreviewExtra {
    Nothing,
    PinMarkers,
    PolygonMarkers,
    SkeletonWire,
    PickRings,
}

/// Colours of the cells.
#[derive(Clone, Copy, Debug, PartialEq, Eq, Structural)]
pub enum PreviewLook {
    /// Those of the tool, which go by the colour that is set.
    Tool,
    /// Each cell has one of its own.
    Own,
    /// Each cell has one of the palette.
    Palette,
    /// Those of the tool, for one cell within an object.
    Cell { object_id: u32 },
    /// The fixed ones of a selection, for one cell within an object.
    Selected { object_id: u32 },
}

/// How cells are shown. `only_if_solid` says that they are not where the mesh comes
/// out without anything solid.
#[derive(Clone, Copy, Debug, PartialEq, Eq, Structural)]
pub struct PreviewStyle {
    pub tool: EditTool,
    pub look: PreviewLook,
    pub color: u32,
    pub extra: PreviewExtra,
    pub only_if_solid: bool,
}

/// What is to be meshed: the cells, and their colours where each has its own.
#[derive(Debug)]
pub struct PreviewMesh {
    pub style: PreviewStyle,
    pub cells: Vec<VoxelCoord>,
    pub colors: Vec<ColoredCell>,
}

/// What the preview comes to.
#[derive(Debug)]
pub enum PreviewMeshPrepared {
    /// What is on display stays.
    Noop,
    /// Nothing is shown.
    Clear,
    /// A translucent preview.
    Upload { cache_key: u64, mesh: PreviewMesh },
    /// A lit, opaque preview of a generator.
    GenUpload { cache_key: u64, mesh: PreviewMesh },
    /// A large preview whose hidden cells the graphics card leaves out.
    RawVoxelUpload { cache_key: u64, mesh: PreviewMesh },
}

/// What a step of the preview comes to: it is done, or goes on.
#[derive(Debug)]
pub enum PreviewNext {
    Done(PreviewMeshPrepared),
    Go(PreviewStart),
}

/// How the preview goes on where a generator had no cells.
pub open spec fn after_generator(ctx: PreviewContext) -> PreviewStart {
    if ctx.cursor {
        brush_stage(ctx)
    } else {
        PreviewStart::Clear
    }
}

/// The mesh shows the cells without colours of their own.
pub open spec fn plain_mesh(m: PreviewMesh, style: PreviewStyle, cells: Seq<VoxelCoord>) -> bool {
    m.style == style && m.cells@ == cells && m.colors@ == Seq::<ColoredCell>::empty()
}

/// The mesh shows the cells, each with its colour.
pub open spec fn colored_mesh(m: PreviewMesh, style: PreviewStyle, cells: Seq<ColoredCell>) -> bool {
    m.style == style && m.cells@ == coords_of(cells) && m.colors@ == cells
}

/// Style of cells that a generator or a session fills.
pub open spec fn filled_style(color: u32, extra: PreviewExtra) -> PreviewStyle {
    PreviewStyle {
        tool: EditTool::Add,
        look: PreviewLook::Tool,
        color,
        extra,
        only_if_solid: false,
    }
}

fn make_filled_style(color: u32, extra: PreviewExtra) -> (r: PreviewStyle)
    ensures
        r == filled_style(color, extra),
{
    PreviewStyle {
        tool: EditTool::Add,
        look: PreviewLook::Tool,
        color,
        extra,
        only_if_solid: false,
    }
}

/// Generators whose preview is lit: only their outer cells are meshed.
pub open spec fn lit(g: Generator) -> bool {
    g == Generator::Rocks || g == Generator::Grass || g == Generator::Ashlar || g
        == Generator::Shape
}

/// What the preview of a generator with plain cells comes to. A roof shows the
/// markers of its pins even where it has no cells; any other generator without
/// cells leaves the preview to what would be shown without it.
pub open spec fn generator_comes_to(
    ctx: PreviewContext,
    g: Generator,
    color: u32,
    cells: Seq<VoxelCoord>,
    key: u64,
    shown: Option<u64>,
    r: PreviewNext,
) -> bool {
    if cells.len() == 0 && g != Generator::Roof {
        r == PreviewNext::Go(after_generator(ctx))
    } else if shown == Some(key) {
        r == PreviewNext::Done(PreviewMeshPrepared::Noop)
    } else if lit(g) {
        r matches PreviewNext::Done(PreviewMeshPrepared::GenUpload { cache_key, mesh })
            && cache_key == key && plain_mesh(
            mesh,
            filled_style(color, PreviewExtra::Nothing),
            shell(cells),
        )
    } else {
        r matches PreviewNext::Done(PreviewMeshPrepared::Upload { cache_key, mesh }) && cache_key
            == key && plain_mesh(
            mesh,
            filled_style(
                color,
                if g == Generator::Roof {
                    PreviewExtra::PinMarkers
                } else {
                    PreviewExtra::Nothing
                },
            ),
            first_occurrences(cells),
        )
    }
}

/// What the preview of a generator with plain cells comes to.
pub fn generator_preview(
    ctx: &PreviewContext,
    generator: Generator,
    color: u32,
    cells: &[VoxelCoord],
    key: u64,
    shown: Option<u64>,
) -> (r: PreviewNext)
    requires
        lit(generator) ==> forall|i: int|
            0 <= i < cells@.len() ==> inner_coord(#[trigger] cells@[i]),
    ensures
        generator_comes_to(*ctx, generator, color, cells@, key, shown, r),
{
    let is_roof = generator == Generator::Roof;
    if cells.len() == 0 && !is_roof {
        return PreviewNext::Go(
            if ctx.cursor {
                start_brush(ctx)
            } else {
                PreviewStart::Clear
            },
        );
    }
    if same_key(shown, key) {
        return PreviewNext::Done(PreviewMeshPrepared::Noop);
    }
    let is_lit = generator == Generator::Rocks || generator == Generator::Grass || generator
        == Generator::Ashlar || generator == Generator::Shape;
    if is_lit {
        PreviewNext::Done(
            PreviewMeshPrepared::GenUpload {
                cache_key: key,
                mesh: PreviewMesh {
                    style: make_filled_style(color, PreviewExtra::Nothing),
                    cells: visible_cells(cells),
                    colors: Vec::new(),
                },
            },
        )
    } else {
        PreviewNext::Done(
            PreviewMeshPrepared::Upload {
                cache_key: key,
                mesh: PreviewMesh {
                    style: make_filled_style(
                        color,
                        if is_roof {
                            PreviewExtra::PinMarkers
                        } else {
                            PreviewExtra::Nothing
                        },
                    ),
                    cells: unique_cells(cells),
                    colors: Vec::new(),
                },
            },
        )
    }
}

/// Whether a key is the one on display.
pub fn same_key(shown: Option<u64>, key: u64) -> (r: bool)
    ensures
        r == (shown == Some(key)),
{
    match shown {
        Some(k) => k == key,
        None => false,
    }
}

/// Style of cells that each have a colour of their own.
pub open spec fn own_style(color: u32, only_if_solid: bool) -> PreviewStyle {
    PreviewStyle {
        tool: EditTool::Add,
        look: PreviewLook::Own,
        color,
        extra: PreviewExtra::Nothing,
        only_if_solid,
    }
}

fn make_own_style(color: u32, only_if_solid: bool) -> (r: PreviewStyle)
    ensures
        r == own_style(color, only_if_solid),
{
    PreviewStyle {
        tool: EditTool::Add,
        look: PreviewLook::Own,
        color,
        extra: PreviewExtra::Nothing,
        only_if_solid,
    }
}

/// What the preview of a generator with coloured cells comes to: the outer cells
/// are shown, each with its colour; without cells, what would be shown without it.
pub open spec fn colored_comes_to(
    ctx: PreviewContext,
    color: u32,
    cells: Seq<ColoredCell>,
    key: u64,
    shown: Option<u64>,
    r: PreviewNext,
) -> bool {
    if cells.len() == 0 {
        r == PreviewNext::Go(after_generator(ctx))
    } else if shown == Some(key) {
        r == PreviewNext::Done(PreviewMeshPrepared::Noop)
    } else {
        r matches PreviewNext::Done(PreviewMeshPrepared::GenUpload { cache_key, mesh })
            && cache_key == key && colored_mesh(
            mesh,
            own_style(color, false),
            recolored(cells, shell(coords_of(cells))),
        )
    }
}

/// What the preview of a generator with coloured cells comes to.
pub fn colored_generator_preview(
    ctx: &PreviewContext,
    color: u32,
    cells: &Vec<ColoredCell>,
    key: u64,
    shown: Option<u64>,
) -> (r: PreviewNext)
    requires
        forall|i: int| 0 <= i < cells@.len() ==> inner_coord((#[trigger] cells@[i]).cell),
    ensures
        colored_comes_to(*ctx, color, cells@, key, shown, r),
{
    if cells.len() == 0 {
        return PreviewNext::Go(
            if ctx.cursor {
                start_brush(ctx)
            } else {
                PreviewStart::Clear
            },
        );
    }
    if same_key(shown, key) {
        return PreviewNext::Done(PreviewMeshPrepared::Noop);
    }
    let colors = visible_colored(cells);
    PreviewNext::Done(
        PreviewMeshPrepared::GenUpload {
            cache_key: key,
            mesh: mesh_of_colored(make_own_style(color, false), colors),
        },
    )
}

/// A mesh of coloured cells.
fn mesh_of_colored(style: PreviewStyle, colors: Vec<ColoredCell>) -> (m: PreviewMesh)
    ensures
        colored_mesh(m, style, colors@),
{
    let mut cells: Vec<VoxelCoord> = Vec::new();
    let mut i: usize = 0;
    assert(cells@ =~= coords_of(colors@.take(0)));
    while i < colors.len()
        invariant
            0 <= i <= colors@.len(),
            cells@ == coords_of(colors@.take(i as int)),
        decreases colors@.len() - i,
    {
        cells.push(colors[i].cell);
        assert(cells@ =~= coords_of(colors@.take(i as int + 1)));
        i += 1;
    }
    assert(colors@.take(i as int) =~= colors@);
    PreviewMesh { style, cells, colors }
}

/// The cells of a list that a shape may fill: all of them, or the empty ones.
pub open spec fn placeable(
    cells: Seq<VoxelCoord>,
    overwrite: bool,
    map: Map<VoxelCoord, usize>,
) -> Seq<VoxelCoord>
    decreases cells.len(),
{
    if cells.len() == 0 {
        seq![]
    } else {
        let head = placeable(cells.drop_last(), overwrite, map);
        if overwrite || !map.contains_key(cells.last()) {
            head.push(cells.last())
        } else {
            head
        }
    }
}

/// The cells of a list that a shape may fill: all of them, or the empty ones.
pub fn placeable_cells(cells: &Vec<VoxelCoord>, overwrite: bool, voxel_map: &CoordMap) -> (r: Vec<
    VoxelCoord,
>)
    ensures
        r@ == placeable(cells@, overwrite, entries(*voxel_map)),
{
    let mut out: Vec<VoxelCoord> = Vec::new();
    let mut i: usize = 0;
    assert(cells@.take(0) =~= Seq::<VoxelCoord>::empty());
    while i < cells.len()
        invariant
            0 <= i <= cells@.len(),
            out@ == placeable(cells@.take(i as int), overwrite, entries(*voxel_map)),
        decreases cells@.len() - i,
    {
        let c: VoxelCoord = cells[i];
        assert(cells@.take(i as int + 1).drop_last() =~= cells@.take(i as int));
        if overwrite || coord_map_get(voxel_map, &c).is_none() {
            out.push(c);
        }
        i += 1;
    }
    assert(cells@.take(i as int) =~= cells@);
    out
}

/// Iterations and constraint passes of a cloth: none given means that the cloth
/// picks its own number of iterations.
pub fn cloth_effort(iterations: u32, passes: u32) -> (r: (Option<u32>, u32))
    ensures
        r.0 == (if iterations == 0 {
            None
        } else if iterations < 4 {
            Some(4u32)
        } else if iterations > 96 {
            Some(96u32)
        } else {
            Some(iterations)
        }),
        r.1 == (if passes < 1 {
            1
        } else if passes > 6 {
            6
        } else {
            passes
        }),
{
    (
        if iterations == 0 {
            None
        } else if iterations < 4 {
            Some(4)
        } else if iterations > 96 {
            Some(96)
        } else {
            Some(iterations)
        },
        if passes < 1 {
            1
        } else if passes > 6 {
            6
        } else {
            passes
        },
    )
}

/// What is done for a skeleton session.
#[derive(Clone, Copy, Debug, PartialEq, Eq, Structural)]
pub enum SkeletonStep {
    Noop,
    Clear,
    /// The cells of the session are shown, at most so many of them, under this key.
    Build { max_voxels: usize, key: u64 },
}

/// What is done for a skeleton session with the given number of joints. While the
/// gizmo is dragged fewer cells are shown.
pub open spec fn skeleton_step(
    ctx: PreviewContext,
    joints: int,
    key: u64,
    shown: Option<u64>,
) -> SkeletonStep {
    if shown == Some(key) {
        SkeletonStep::Noop
    } else if joints == 0 || !ctx.model {
        SkeletonStep::Clear
    } else {
        SkeletonStep::Build {
            max_voxels: if ctx.gizmo_drag {
                12_000
            } else {
                24_000
            },
            key,
        }
    }
}

/// What is done for a skeleton session with the given number of joints.
pub fn skeleton_preview(ctx: &PreviewContext, joints: usize, key: u64, shown: Option<u64>) -> (r:
    SkeletonStep)
    ensures
        r == skeleton_step(*ctx, joints as int, key, shown),
{
    if same_key(shown, key) {
        SkeletonStep::Noop
    } else if joints == 0 || !ctx.model {
        SkeletonStep::Clear
    } else {
        SkeletonStep::Build {
            max_voxels: if ctx.gizmo_drag {
                12_000
            } else {
                24_000
            },
            key,
        }
    }
}

/// The preview of a skeleton session: its cells, and the lines of its bones.
pub fn skeleton_built(color: u32, coords: &[VoxelCoord], key: u64) -> (r: PreviewMeshPrepared)
    ensures
        r matches PreviewMeshPrepared::Upload { cache_key, mesh } && cache_key == key
            && plain_mesh(
            mesh,
            filled_style(color, PreviewExtra::SkeletonWire),
            first_occurrences(coords@),
        ),
{
    PreviewMeshPrepared::Upload {
        cache_key: key,
        mesh: PreviewMesh {
            style: make_filled_style(color, PreviewExtra::SkeletonWire),
            cells: unique_cells(coords),
            colors: Vec::new(),
        },
    }
}

/// What is picked under the pointer in a metaball session.
#[derive(Clone, Copy, Debug, PartialEq, Eq, Structural)]
pub enum MetaballPick {
    /// The empty cell in front of the surface.
    CellInFront,
    /// The filled cell.
    FilledCell,
    /// A ball.
    Ball,
    Nothing,
}

/// What is picked under the pointer in a metaball session.
pub fn metaball_pick(mode: SquishyMode, add_snap_to_surface: bool) -> (r: MetaballPick)
    ensures
        r == (match mode {
            SquishyMode::Add => if add_snap_to_surface {
                MetaballPick::CellInFront
            } else {
                MetaballPick::FilledCell
            },
            SquishyMode::Delete => MetaballPick::Ball,
            SquishyMode::Other => MetaballPick::Nothing,
        }),
{
    match mode {
        SquishyMode::Add => {
            if add_snap_to_surface {
                MetaballPick::CellInFront
            } else {
                MetaballPick::FilledCell
            }
        },
        SquishyMode::Delete => MetaballPick::Ball,
        SquishyMode::Other => MetaballPick::Nothing,
    }
}

/// The cell that a click adds at: only where clicks add.
pub open spec fn anchor_of(mode: SquishyMode, cell: Option<VoxelCoord>) -> Option<VoxelCoord> {
    if mode == SquishyMode::Add {
        cell
    } else {
        None
    }
}

/// The ball that a click takes away: only where clicks take away.
pub open spec fn ball_of(mode: SquishyMode, ball: Option<u32>) -> Option<u32> {
    if mode == SquishyMode::Delete {
        ball
    } else {
        None
    }
}

/// The cells of a metaball session with the cell that a click adds at.
pub open spec fn with_anchor(
    coords: Seq<VoxelCoord>,
    anchor: Option<VoxelCoord>,
) -> Seq<VoxelCoord> {
    match anchor {
        Some(a) => coords.push(a),
        None => coords,
    }
}

/// What is done for a metaball session.
#[derive(Clone, Copy, Debug, PartialEq, Eq)]
pub enum MetaballStep {
    Noop,
    /// The cells of the session are shown under this key, with the cell that a click adds at.
    Build { key: u64, anchor: Option<VoxelCoord> },
}

/// What is done for a metaball session with the cell that a click adds at.
pub open spec fn metaball_step(
    anchor: Option<VoxelCoord>,
    key: u64,
    shown: Option<u64>,
) -> MetaballStep {
    if shown == Some(key) {
        MetaballStep::Noop
    } else {
        MetaballStep::Build { key, anchor }
    }
}

/// The preview of a metaball session: its cells, with the one that a click adds at,
/// and rings to pick balls by where there are any or one could be added. Nothing is
/// shown where there is neither.
pub open spec fn metaballs_come_to(
    color: u32,
    balls: int,
    anchor: Option<VoxelCoord>,
    coords: Seq<VoxelCoord>,
    key: u64,
    r: PreviewMeshPrepared,
) -> bool {
    let all = with_anchor(coords, anchor);
    let rings = balls > 0 || anchor is Some;
    if all.len() == 0 && !rings {
        r == PreviewMeshPrepared::Clear
    } else {
        r matches PreviewMeshPrepared::Upload { cache_key, mesh } && cache_key == key
            && plain_mesh(
            mesh,
            filled_style(
                color,
                if rings {
                    PreviewExtra::PickRings
                } else {
                    PreviewExtra::Nothing
                },
            ),
            first_occurrences(all),
        )
    }
}

/// The preview of a metaball session.
pub fn metaball_preview(
    color: u32,
    balls: usize,
    anchor: Option<VoxelCoord>,
    coords: Vec<VoxelCoord>,
    key: u64,
) -> (r: PreviewMeshPrepared)
    ensures
        metaballs_come_to(color, balls as int, anchor, coords@, key, r),
{
    let mut coords = coords;
    if let Some(a) = anchor {
        coords.push(a);
    }
    let rings = balls > 0 || anchor.is_some();
    if coords.len() == 0 && !rings {
        return PreviewMeshPrepared::Clear;
    }
    PreviewMeshPrepared::Upload {
        cache_key: key,
        mesh: PreviewMesh {
            style: make_filled_style(
                color,
                if rings {
                    PreviewExtra::PickRings
                } else {
                    PreviewExtra::Nothing
                },
            ),
            cells: unique_cells(coords.as_slice()),
            colors: Vec::new(),
        },
    }
}

/// Style of the cell under the pointer, within an object.
pub open spec fn cell_style(mode: PreviewMode, color: u32, object_id: u32) -> PreviewStyle {
    PreviewStyle {
        tool: match mode {
            PreviewMode::Add => EditTool::Add,
            PreviewMode::Paint => EditTool::Paint,
            _ => EditTool::Remove,
        },
        look: if mode == PreviewMode::Select {
            PreviewLook::Selected { object_id }
        } else {
            PreviewLook::Cell { object_id }
        },
        color,
        extra: PreviewExtra::Nothing,
        only_if_solid: false,
    }
}

/// What the preview of the cell under the pointer, and of its object, comes to.
pub open spec fn cell_comes_to(
    mode: PreviewMode,
    color: u32,
    cell: Option<(VoxelCoord, u32)>,
    key: u64,
    shown: Option<u64>,
    r: PreviewMeshPrepared,
) -> bool {
    if shown == Some(key) {
        r == PreviewMeshPrepared::Noop
    } else if cell is None {
        r == PreviewMeshPrepared::Clear
    } else {
        r matches PreviewMeshPrepared::Upload { cache_key, mesh } && cache_key == key
            && plain_mesh(mesh, cell_style(mode, color, (cell->0).1), seq![(cell->0).0])
    }
}

/// What the preview of the cell under the pointer, and of its object, comes to.
pub fn cell_preview(
    mode: PreviewMode,
    color: u32,
    cell: Option<(VoxelCoord, u32)>,
    key: u64,
    shown: Option<u64>,
) -> (r: PreviewMeshPrepared)
    ensures
        cell_comes_to(mode, color, cell, key, shown, r),
{
    if same_key(shown, key) {
        return PreviewMeshPrepared::Noop;
    }
    match cell {
        None => PreviewMeshPrepared::Clear,
        Some(c) => {
            let mut cells: Vec<VoxelCoord> = Vec::new();
            cells.push(c.0);
            assert(cells@ =~= seq![c.0]);
            let object_id: u32 = c.1;
            PreviewMeshPrepared::Upload {
                cache_key: key,
                mesh: PreviewMesh {
                    style: PreviewStyle {
                        tool: match mode {
                            PreviewMode::Add => EditTool::Add,
                            PreviewMode::Paint => EditTool::Paint,
                            _ => EditTool::Remove,
                        },
                        look: if mode == PreviewMode::Select {
                            PreviewLook::Selected { object_id }
                        } else {
                            PreviewLook::Cell { object_id }
                        },
                        color,
                        extra: PreviewExtra::Nothing,
                        only_if_solid: false,
                    },
                    cells,
                    colors: Vec::new(),
                },
            }
        },
    }
}

/// Style of cells that a stroke reaches.
pub open spec fn stroke_style(
    tool: EditTool,
    look: PreviewLook,
    color: u32,
    extra: PreviewExtra,
) -> PreviewStyle {
    PreviewStyle { tool, look, color, extra, only_if_solid: true }
}

/// What the preview of a polygon selection comes to: the cells that it reaches,
/// and the markers of its corners.
pub open spec fn polygon_comes_to(
    color: u32,
    targets: Seq<VoxelCoord>,
    key: u64,
    shown: Option<u64>,
    r: PreviewMeshPrepared,
) -> bool {
    if shown == Some(key) {
        r == PreviewMeshPrepared::Noop
    } else {
        r matches PreviewMeshPrepared::Upload { cache_key, mesh } && cache_key == key
            && plain_mesh(
            mesh,
            stroke_style(
                EditTool::Remove,
                PreviewLook::Tool,
                color,
                PreviewExtra::PolygonMarkers,
            ),
            first_occurrences(targets),
        )
    }
}

/// What the preview of a polygon selection comes to.
pub fn polygon_preview(color: u32, targets: &[VoxelCoord], key: u64, shown: Option<u64>) -> (r:
    PreviewMeshPrepared)
    ensures
        polygon_comes_to(color, targets@, key, shown, r),
{
    if same_key(shown, key) {
        return PreviewMeshPrepared::Noop;
    }
    PreviewMeshPrepared::Upload {
        cache_key: key,
        mesh: PreviewMesh {
            style: PreviewStyle {
                tool: EditTool::Remove,
                look: PreviewLook::Tool,
                color,
                extra: PreviewExtra::PolygonMarkers,
                only_if_solid: true,
            },
            cells: unique_cells(targets),
            colors: Vec::new(),
        },
    }
}

/// What the preview of a stamp or punch comes to: the cells that the clipboard
/// lands on; a stamp shows them in its own colours.
pub open spec fn stamp_comes_to(
    stamp: bool,
    color: u32,
    clip: Seq<ClipEntry>,
    anchor: Option<VoxelCoord>,
    off_x: i32,
    off_z: i32,
    key: u64,
    shown: Option<u64>,
    r: PreviewMeshPrepared,
) -> bool {
    if shown == Some(key) {
        r == PreviewMeshPrepared::Noop
    } else if anchor is None {
        r == PreviewMeshPrepared::Clear
    } else {
        let all = stamped(clip, anchor->0, off_x as int, off_z as int);
        let cells = recolored(all, first_occurrences(coords_of(all)));
        r matches PreviewMeshPrepared::Upload { cache_key, mesh } && cache_key == key && (if stamp {
            colored_mesh(mesh, own_style(color, true), cells)
        } else {
            plain_mesh(
                mesh,
                stroke_style(
                    EditTool::Remove,
                    PreviewLook::Tool,
                    color,
                    PreviewExtra::Nothing,
                ),
                coords_of(cells),
            )
        })
    }
}

/// What the preview of a stamp or punch comes to.
pub fn stamp_preview(
    stamp: bool,
    color: u32,
    clip: &Vec<ClipEntry>,
    anchor: Option<VoxelCoord>,
    off_x: i32,
    off_z: i32,
    key: u64,
    shown: Option<u64>,
) -> (r: PreviewMeshPrepared)
    requires
        anchor matches Some(a) ==> stamp_fits(clip@, a, off_x as int, off_z as int),
    ensures
        stamp_comes_to(stamp, color, clip@, anchor, off_x, off_z, key, shown, r),
{
    if same_key(shown, key) {
        return PreviewMeshPrepared::Noop;
    }
    match anchor {
        None => PreviewMeshPrepared::Clear,
        Some(a) => {
            let cells = stamp_cells(clip, a, off_x, off_z);
            let mut mesh = mesh_of_colored(make_own_style(color, true), cells);
            if !stamp {
                mesh.colors = Vec::new();
                mesh.style = PreviewStyle {
                    tool: EditTool::Remove,
                    look: PreviewLook::Tool,
                    color,
                    extra: PreviewExtra::Nothing,
                    only_if_solid: true,
                };
            }
            PreviewMeshPrepared::Upload { cache_key: key, mesh }
        },
    }
}

/// What is done for a stroke.
#[derive(Debug)]
pub enum StrokeStep {
    Done(PreviewMeshPrepared),
    /// The cells can be left to the graphics card, if there are enough of them;
    /// else they are meshed.
    TryRaw(PreviewMeshPrepared),
}

/// What the preview of a stroke comes to: the cells that it reaches, and the
/// markers of its corners where it is a polygon. Cells of one colour and no markers
/// may be left to the graphics card.
pub open spec fn stroke_comes_to(
    ctx: PreviewContext,
    tool: EditTool,
    color: u32,
    targets: Seq<VoxelCoord>,
    key: u64,
    shown: Option<u64>,
    r: StrokeStep,
) -> bool {
    let corners = ctx.polygon_stroke && ctx.polygon_vertices > 0;
    let style = stroke_style(
        tool,
        if ctx.palette > 1 {
            PreviewLook::Palette
        } else {
            PreviewLook::Tool
        },
        color,
        if corners {
            PreviewExtra::PolygonMarkers
        } else {
            PreviewExtra::Nothing
        },
    );
    if shown == Some(key) {
        r == StrokeStep::Done(PreviewMeshPrepared::Noop)
    } else if targets.len() == 0 && !corners {
        r == StrokeStep::Done(PreviewMeshPrepared::Clear)
    } else if !corners && ctx.palette <= 1 {
        r matches StrokeStep::TryRaw(PreviewMeshPrepared::Upload { cache_key, mesh }) && cache_key
            == key && plain_mesh(mesh, style, first_occurrences(targets))
    } else {
        r matches StrokeStep::Done(PreviewMeshPrepared::Upload { cache_key, mesh }) && cache_key
            == key && plain_mesh(mesh, style, first_occurrences(targets))
    }
}

/// What the preview of a stroke comes to.
pub fn stroke_preview(
    ctx: &PreviewContext,
    tool: EditTool,
    color: u32,
    targets: &[VoxelCoord],
    key: u64,
    shown: Option<u64>,
) -> (r: StrokeStep)
    ensures
        stroke_comes_to(*ctx, tool, color, targets@, key, shown, r),
{
    if same_key(shown, key) {
        return StrokeStep::Done(PreviewMeshPrepared::Noop);
    }
    let corners = ctx.polygon_stroke && ctx.polygon_vertices > 0;
    if targets.len() == 0 && !corners {
        return StrokeStep::Done(PreviewMeshPrepared::Clear);
    }
    let upload = PreviewMeshPrepared::Upload {
        cache_key: key,
        mesh: PreviewMesh {
            style: PreviewStyle {
                tool,
                look: if ctx.palette > 1 {
                    PreviewLook::Palette
                } else {
                    PreviewLook::Tool
                },
                color,
                extra: if corners {
                    PreviewExtra::PolygonMarkers
                } else {
                    PreviewExtra::Nothing
                },
                only_if_solid: true,
            },
            cells: unique_cells(targets),
            colors: Vec::new(),
        },
    };
    if !corners && ctx.palette <= 1 {
        StrokeStep::TryRaw(upload)
    } else {
        StrokeStep::Done(upload)
    }
}

/// A stroke that was left to the graphics card.
pub fn as_raw(prepared: PreviewMeshPrepared) -> (r: PreviewMeshPrepared)
    ensures
        r == (match prepared {
            PreviewMeshPrepared::Upload { cache_key, mesh } => PreviewMeshPrepared::RawVoxelUpload {
                cache_key,
                mesh,
            },
            other => other,
        }),
{
    match prepared {
        PreviewMeshPrepared::Upload { cache_key, mesh } => PreviewMeshPrepared::RawVoxelUpload {
            cache_key,
            mesh,
        },
        other => other,
    }
}

/// What is shown once the mesh is made: a stroke, a selection or a stamp that came out
/// without cells and without anything solid besides them is not.
pub fn settle(
    prepared: PreviewMeshPrepared,
    solid_instances: usize,
    extra_positions: usize,
) -> (r: PreviewMeshPrepared)
    ensures
        r == (match prepared {
            PreviewMeshPrepared::Upload { cache_key: _, mesh } => if mesh.style.only_if_solid
                && solid_instances == 0 && extra_positions == 0 {
                PreviewMeshPrepared::Clear
            } else {
                prepared
            },
            _ => prepared,
        }),
{
    match prepared {
        PreviewMeshPrepared::Upload { cache_key, mesh } => {
            if mesh.style.only_if_solid && solid_instances == 0 && extra_positions == 0 {
                PreviewMeshPrepared::Clear
            } else {
                PreviewMeshPrepared::Upload { cache_key, mesh }
            }
        },
        other => other,
    }
}

/// Without a model nothing but a skeleton session is looked at, without the
/// pointer nothing but a skeleton, pins or the gizmo, and while the pointer only
/// moves the camera nothing is shown.
pub proof fn law_preview_needs_a_model_and_pointer(ctx: PreviewContext)
    ensures
        !ctx.model && preview_start(ctx) is Ask ==> preview_start(ctx) == PreviewStart::Ask(
            PreviewAsk::Skeleton,
        ),
        !ctx.cursor && preview_start(ctx) is Ask ==> preview_start(ctx) == PreviewStart::Ask(
            PreviewAsk::Skeleton,
        ) || preview_start(ctx) == PreviewStart::Ask(PreviewAsk::ShapeAtGizmo) || preview_start(ctx)
            == PreviewStart::Ask(PreviewAsk::Cells(Generator::Cloth)) || preview_start(ctx)
            == PreviewStart::Ask(PreviewAsk::Cells(Generator::Roof)) || preview_start(ctx)
            == PreviewStart::Ask(PreviewAsk::RoofPins),
        (ctx.mode == PreviewMode::Navigate || ctx.mode == PreviewMode::Fly) && !ctx.suppressed
            ==> preview_start(ctx) == PreviewStart::Clear,
{
}

} // verus!
