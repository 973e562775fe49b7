//! The voxel brick on the graphics device: when single cells of it can be
//! written, and when it has to be made anew.

use vstd::prelude::*;

use crate::render::raytrace::RaytraceState;
use crate::voxelle::VoxelCoord;

verus! {

/// Longest side of a brick, in cells.
pub const MAX_BRICK_AXIS: u32 = 512;

/// Bytes of one cell.
pub const CELL_BYTES: u64 = 4;

/// Place and extent of a brick.
#[derive(Clone, Copy, Debug)]
pub struct BrickLayout {
    pub origin: VoxelCoord,
    pub dims: (u32, u32, u32),
}

/// The brick that is on the device.
#[derive(Clone, Copy, Debug)]
pub struct BrickState {
    pub layout: BrickLayout,
    pub cell_count: u32,
}

/// What to do with the brick.
#[derive(Debug)]
pub enum BrickAction {
    /// Write the cells at these byte offsets.
    Patch(Vec<u64>),
    /// Make it anew.
    Rebuild,
}

/// The brick that the voxels need is laid out as the one that is there.
pub open spec fn layout_kept(s: BrickState, wanted: Option<BrickLayout>) -> bool {
    wanted is Some && wanted->0 == s.layout
}

/// Every cell lies in the brick.
pub open spec fn all_inside(cells: Seq<Option<u64>>) -> bool {
    forall|i: int| 0 <= i < cells.len() ==> (#[trigger] cells[i]) is Some
}

/// Byte offsets of cells that lie in the brick.
pub open spec fn offsets(cells: Seq<Option<u64>>) -> Seq<u64> {
    Seq::new(cells.len(), |i: int| (cells[i]->0 * CELL_BYTES) as u64)
}

/// Offsets of cells of a brick fit, however long its sides.
pub open spec fn offsets_fit(cells: Seq<Option<u64>>) -> bool {
    forall|i: int|
        0 <= i < cells.len() && (#[trigger] cells[i]) is Some ==> cells[i]->0 * CELL_BYTES
            <= u64::MAX
}

/// The brick `layout` on the device, with `cells` cells.
pub open spec fn brick_of(layout: BrickLayout, cells: int) -> BrickState {
    BrickState {
        layout,
        cell_count: (if cells < 1 {
            1
        } else {
            cells
        }) as u32,
    }
}

impl BrickState {
    /// One empty cell.
    pub fn new() -> (r: BrickState)
        ensures
            r == brick_of(BrickLayout { origin: (0i32, 0i32, 0i32), dims: (0u32, 0u32, 0u32) }, 1),
    {
        BrickState { layout: BrickLayout { origin: (0, 0, 0), dims: (0, 0, 0) }, cell_count: 1 }
    }

    fn keeps(&self, wanted: &Option<BrickLayout>) -> (r: bool)
        ensures
            r == layout_kept(*self, *wanted),
    {
        match wanted {
            None => false,
            Some(w) => {
                let a = self.layout;
                a.origin.0 == w.origin.0 && a.origin.1 == w.origin.1 && a.origin.2 == w.origin.2
                    && a.dims.0 == w.dims.0 && a.dims.1 == w.dims.1 && a.dims.2 == w.dims.2
            },
        }
    }

    /// The model changed in at most one cell. `wanted` is the brick that its
    /// voxels need, `patch` the position of the changed cell in it, if one cell
    /// is known to be all that changed. Gathered samples are kept by a patch.
    pub fn upload_scene_data(
        &self,
        wanted: &Option<BrickLayout>,
        patch: &Option<Option<u64>>,
    ) -> (r: BrickAction)
        requires
            patch is Some && (patch->0) is Some ==> (patch->0)->0 * CELL_BYTES <= u64::MAX,
        ensures
            if layout_kept(*self, *wanted) && patch is Some && (patch->0) is Some {
                r matches BrickAction::Patch(o) && o@ == seq![((patch->0)->0 * CELL_BYTES) as u64]
            } else {
                r is Rebuild
            },
    {
        match patch {
            Some(Some(at)) => {
                if self.keeps(wanted) {
                    let o: Vec<u64> = vec![*at * CELL_BYTES];
                    assert(o@ =~= seq![((patch->0)->0 * CELL_BYTES) as u64]);
                    return BrickAction::Patch(o);
                }
            },
            _ => {},
        }
        BrickAction::Rebuild
    }

    /// The model changed in some cells. `cells` holds the position of each in
    /// the brick that the voxels need, `None` where it lies outside.
    pub fn upload_scene_data_patches(
        &self,
        wanted: &Option<BrickLayout>,
        cells: &[Option<u64>],
    ) -> (r: BrickAction)
        requires
            offsets_fit(cells@),
        ensures
            if layout_kept(*self, *wanted) && all_inside(cells@) {
                r matches BrickAction::Patch(o) && o@ == offsets(cells@)
            } else {
                r is Rebuild
            },
    {
        if !self.keeps(wanted) {
            return BrickAction::Rebuild;
        }
        let n: usize = cells.len();
        let mut out: Vec<u64> = Vec::new();
        let mut i: usize = 0;
        while i < n
            invariant
                i <= n,
                n == cells@.len(),
                offsets_fit(cells@),
                out@ == offsets(cells@.take(i as int)),
                forall|k: int| 0 <= k < i ==> (#[trigger] cells@[k]) is Some,
                layout_kept(*self, *wanted),
            decreases n - i,
        {
            match cells[i] {
                Some(at) => {
                    assert(cells@[i as int] is Some);
                    out.push(at * CELL_BYTES);
                    assert(out@ =~= offsets(cells@.take(i as int + 1)));
                },
                None => {
                    assert(!(cells@[i as int] is Some));
                    return BrickAction::Rebuild;
                },
            }
            i += 1;
        }
        assert(cells@.take(n as int) =~= cells@);
        BrickAction::Patch(out)
    }

    /// A brick was made anew. A model without voxels has one empty cell.
    pub fn upload_scene_data_from_brick(&mut self, layout: BrickLayout, cells: usize)
        ensures
            *final(self) == brick_of(layout, cells as int),
    {
        self.layout = layout;
        self.cell_count = if cells < 1 {
            1
        } else {
            cells as u32
        };
    }
}

/// Whether the samples that the ray tracer gathered are thrown away: by a
/// rebuild after a single change, and by patches, but not by a single patch.
pub fn settle_samples(rt: &mut RaytraceState, single: bool, patched: bool)
    ensures
        *final(rt) == (if single != patched {
            RaytraceState { sample_n: 0, ..*old(rt) }
        } else {
            *old(rt)
        }),
{
    if single != patched {
        rt.restart();
    }
}

} // verus!
