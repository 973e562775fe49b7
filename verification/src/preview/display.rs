//! The preview on display, the pointer and mode it is made for, and what a new
//! preview puts in its place.

use vstd::prelude::*;

use crate::preview::cells::ColoredCell;
use crate::preview::mode::{EditTool, Generator, PreviewMode};
use crate::preview::plan::{
    cell_comes_to, colored_comes_to, generator_comes_to, metaball_step, polygon_comes_to,
    skeleton_step, stamp_comes_to, stroke_comes_to, MetaballStep, PreviewContext, PreviewMesh,
    PreviewMeshPrepared, PreviewNext, SkeletonStep, StrokeStep,
};
use crate::preview::session_keys::ClipEntry;
use crate::preview::settings::{PreviewHoverContext, SyncPreviewInput};
use crate::render::overlays::{
    has_extra, instanced_part, without_preview, Overlays, PreviewSizes,
};
use crate::voxelle::VoxelCoord;

verus! {

/// The key that previews are compared with: that of the one on display.
#[derive(Clone, Copy, Debug, PartialEq, Eq, Structural)]
pub struct PreviewDisplay {
    pub overlay_key: Option<u64>,
}

/// The buffers after an instanced preview has been put on display.
pub open spec fn with_preview(o: Overlays, d: PreviewSizes) -> Overlays {
    Overlays {
        preview_solid: instanced_part(d.solid_instances, d.solid_indices, d.solid_instances),
        preview_wire: instanced_part(d.solid_instances, d.wire_indices, d.wire_instances),
        preview_extra: if has_extra(d) {
            Some(d.extra_indices as u32)
        } else {
            None
        },
        preview_extra_wire: if has_extra(d) {
            Some(d.extra_wire_indices as u32)
        } else {
            None
        },
        ..o
    }
}

/// The buffers after a lit preview has been put on display.
pub open spec fn with_gen_preview(o: Overlays, d: PreviewSizes) -> Overlays {
    Overlays {
        gen_solid: instanced_part(d.solid_instances, d.solid_indices, d.solid_instances),
        gen_wire: instanced_part(d.solid_instances, d.wire_indices, d.wire_instances),
        ..o
    }
}

/// The buffers after a preview has been put on display. One whose hidden cells
/// the graphics card leaves out has buffers of its own.
pub open spec fn shown(o: Overlays, prepared: PreviewMeshPrepared, d: PreviewSizes) -> Overlays {
    match prepared {
        PreviewMeshPrepared::Noop => o,
        PreviewMeshPrepared::Clear => without_preview(o),
        PreviewMeshPrepared::Upload { cache_key, mesh: _ } => Overlays {
            preview_cache_key: Some(cache_key),
            ..with_preview(o, d)
        },
        PreviewMeshPrepared::GenUpload { cache_key, mesh: _ } => Overlays {
            preview_cache_key: Some(cache_key),
            ..with_gen_preview(o, d)
        },
        PreviewMeshPrepared::RawVoxelUpload { cache_key, mesh: _ } => Overlays {
            preview_cache_key: Some(cache_key),
            ..o
        },
    }
}

/// The key after a preview has been put on display.
pub open spec fn key_after(key: Option<u64>, prepared: PreviewMeshPrepared) -> Option<u64> {
    match prepared {
        PreviewMeshPrepared::Noop => key,
        PreviewMeshPrepared::Clear => None,
        PreviewMeshPrepared::Upload { cache_key, mesh: _ } => Some(cache_key),
        PreviewMeshPrepared::GenUpload { cache_key, mesh: _ } => Some(cache_key),
        PreviewMeshPrepared::RawVoxelUpload { cache_key, mesh: _ } => Some(cache_key),
    }
}

impl PreviewDisplay {
    /// The key that previews are compared with.
    pub fn preview_overlay_cache_key_get(&self) -> (r: Option<u64>)
        ensures
            r == self.overlay_key,
    {
        self.overlay_key
    }

    /// Takes the preview away and forgets its keys.
    pub fn clear_preview_mesh_sync_cache(&mut self, viewer: &mut Overlays)
        ensures
            final(self).overlay_key is None,
            *final(viewer) == without_preview(*old(viewer)),
    {
        viewer.clear_preview_mesh();
        self.overlay_key = None;
    }

    /// Puts a preview on display. `sizes` are those of its mesh, if it has one.
    pub fn apply_preview_mesh(
        &mut self,
        viewer: &mut Overlays,
        prepared: &PreviewMeshPrepared,
        sizes: &PreviewSizes,
    )
        ensures
            final(self).overlay_key == key_after(old(self).overlay_key, *prepared),
            *final(viewer) == shown(*old(viewer), *prepared, *sizes),
    {
        match prepared {
            PreviewMeshPrepared::Noop => {},
            PreviewMeshPrepared::Clear => {
                self.clear_preview_mesh_sync_cache(viewer);
            },
            PreviewMeshPrepared::Upload { cache_key, mesh: _ } => {
                viewer.upload_preview_mesh_instanced(sizes);
                viewer.preview_cache_key = Some(*cache_key);
                self.overlay_key = Some(*cache_key);
            },
            PreviewMeshPrepared::GenUpload { cache_key, mesh: _ } => {
                viewer.upload_gen_preview_mesh_instanced(sizes);
                viewer.preview_cache_key = Some(*cache_key);
                self.overlay_key = Some(*cache_key);
            },
            PreviewMeshPrepared::RawVoxelUpload { cache_key, mesh: _ } => {
                viewer.preview_cache_key = Some(*cache_key);
                self.overlay_key = Some(*cache_key);
            },
        }
    }
}

/// Once a preview is on display, its key is the one that later previews are
/// compared with, so that the same preview is not built twice in a row; leaving it
/// as it is changes neither key nor buffers.
pub proof fn law_shown_key_is_kept(
    display: Option<u64>,
    o: Overlays,
    key: u64,
    mesh: PreviewMesh,
    d: PreviewSizes,
)
    ensures
        key_after(display, PreviewMeshPrepared::Upload { cache_key: key, mesh }) == Some(key),
        key_after(display, PreviewMeshPrepared::GenUpload { cache_key: key, mesh }) == Some(key),
        key_after(display, PreviewMeshPrepared::RawVoxelUpload { cache_key: key, mesh }) == Some(
            key,
        ),
        key_after(display, PreviewMeshPrepared::Noop) == display,
        shown(o, PreviewMeshPrepared::Noop, d) == o,
{
}

/// `r` is what some answer comes to under a key, be it cells, a stroke, a selection, a
/// stamp or a session, where the key of the preview on display is `shown`.
pub open spec fn prepared_under(key: u64, shown: Option<u64>, r: PreviewMeshPrepared) -> bool {
    ||| exists|ctx: PreviewContext, g: Generator, color: u32, cells: Seq<VoxelCoord>|
        generator_comes_to(ctx, g, color, cells, key, shown, PreviewNext::Done(r))
    ||| exists|ctx: PreviewContext, color: u32, cells: Seq<ColoredCell>|
        colored_comes_to(ctx, color, cells, key, shown, PreviewNext::Done(r))
    ||| exists|mode: PreviewMode, color: u32, cell: Option<(VoxelCoord, u32)>|
        cell_comes_to(mode, color, cell, key, shown, r)
    ||| exists|color: u32, targets: Seq<VoxelCoord>|
        polygon_comes_to(color, targets, key, shown, r)
    ||| exists|
        stamp: bool,
        color: u32,
        clip: Seq<ClipEntry>,
        anchor: Option<VoxelCoord>,
        off_x: i32,
        off_z: i32,
    |
        stamp_comes_to(stamp, color, clip, anchor, off_x, off_z, key, shown, r)
    ||| exists|ctx: PreviewContext, tool: EditTool, color: u32, targets: Seq<VoxelCoord>|
        stroke_comes_to(ctx, tool, color, targets, key, shown, StrokeStep::Done(r))
    ||| exists|ctx: PreviewContext, tool: EditTool, color: u32, targets: Seq<VoxelCoord>|
        stroke_comes_to(ctx, tool, color, targets, key, shown, StrokeStep::TryRaw(r))
    ||| exists|ctx: PreviewContext, joints: int|
        skeleton_comes_to(#[trigger] skeleton_step(ctx, joints, key, shown), r)
    ||| exists|anchor: Option<VoxelCoord>|
        session_comes_to(#[trigger] metaball_step(anchor, key, shown), r)
}

/// What a step of a skeleton session puts on display.
pub open spec fn skeleton_comes_to(step: SkeletonStep, r: PreviewMeshPrepared) -> bool {
    match step {
        SkeletonStep::Noop => r == PreviewMeshPrepared::Noop,
        SkeletonStep::Clear => r == PreviewMeshPrepared::Clear,
        SkeletonStep::Build { max_voxels: _, key } => r matches PreviewMeshPrepared::Upload {
            cache_key,
            mesh: _,
        } && cache_key == key,
    }
}

/// What a step of a metaball session puts on display.
pub open spec fn session_comes_to(step: MetaballStep, r: PreviewMeshPrepared) -> bool {
    match step {
        MetaballStep::Noop => r == PreviewMeshPrepared::Noop,
        MetaballStep::Build { key, anchor: _ } => r == PreviewMeshPrepared::Clear
            || (r matches PreviewMeshPrepared::Upload { cache_key, mesh: _ } && cache_key == key),
    }
}

/// Preparing a preview under the key that was just put on display does nothing,
/// whatever the answer: neither key nor buffers change.
pub proof fn law_shown_preview_is_left(
    display: Option<u64>,
    o: Overlays,
    key: u64,
    first: PreviewMeshPrepared,
    again: PreviewMeshPrepared,
    d: PreviewSizes,
)
    requires
        key_after(display, first) == Some(key),
        prepared_under(key, key_after(display, first), again),
    ensures
        again == PreviewMeshPrepared::Noop,
        key_after(key_after(display, first), again) == Some(key),
        shown(o, again, d) == o,
{
}

/// The key of the viewer and the key that previews are compared with stay the
/// same as each other, whatever is put on display.
pub proof fn law_keys_agree(
    display: Option<u64>,
    o: Overlays,
    prepared: PreviewMeshPrepared,
    d: PreviewSizes,
)
    requires
        o.preview_cache_key == display,
    ensures
        shown(o, prepared, d).preview_cache_key == key_after(display, prepared),
{
}

/// The pointer, the mode and the settings that a preview is made for.
#[derive(Debug)]
pub struct PreviewPointer {
    pub mode: PreviewMode,
    /// Place of the pointer in the viewport, as bit patterns.
    pub cursor: Option<(u32, u32)>,
    /// The camera of previews is a copy that does not move.
    pub camera_locked: bool,
    pub hover: PreviewHoverContext,
}

/// A single precision number with this bit pattern is below zero.
pub open spec fn below_zero(bits: u32) -> bool {
    0x8000_0000 < bits <= 0xff80_0000
}

impl PreviewPointer {
    /// The pointer moved, or the mode or the settings changed. A place below zero
    /// means that the pointer left the viewport. The result says whether the
    /// viewport has to look: whenever the mode changed.
    pub fn sync_preview_input(&mut self, args: SyncPreviewInput) -> (wake: bool)
        ensures
            wake == (old(self).mode != args.mode),
            *final(self) == (PreviewPointer {
                mode: args.mode,
                cursor: if below_zero(args.nx) {
                    None
                } else {
                    Some((args.nx, args.ny))
                },
                hover: args.hover,
                ..*old(self)
            }),
    {
        let wake = self.mode != args.mode;
        self.mode = args.mode;
        self.cursor = if 0x8000_0000 < args.nx && args.nx <= 0xff80_0000 {
            None
        } else {
            Some((args.nx, args.ny))
        };
        self.hover = args.hover;
        wake
    }

    /// Previews keep to the camera as it is now.
    pub fn lock_generator_preview_camera(&mut self)
        ensures
            *final(self) == (PreviewPointer { camera_locked: true, ..*old(self) }),
    {
        self.camera_locked = true;
    }

    /// Previews follow the camera again.
    pub fn unlock_generator_preview_camera(&mut self)
        ensures
            *final(self) == (PreviewPointer { camera_locked: false, ..*old(self) }),
    {
        self.camera_locked = false;
    }
}

} // verus!
