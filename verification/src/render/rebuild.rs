//! Which way the opaque mesh is made: on the graphics device or without it,
//! whole or in chunks, and how single chunks are made anew after an edit.

use vstd::prelude::*;

use crate::collections::{
    cell_le, cells_sorted, coord_map_get, coord_map_insert, coord_map_new, entries, sort_cells,
    CoordMap,
};
use crate::render::chunk_table::{lookup, ChunkKey};
use crate::render::mesh_buffers::MeshBuffers;
use crate::render::opaque::{
    chunks_cleared, draw_of, drawn, holds_mesh, kernel_draw, keys_ascend, refilled, single_cleared,
    uploaded, ChunkMesh, EmptyVoxels, MeshRoute, OpaqueScene, PreparedOpaqueUpload,
};
use crate::voxel_index::{cells_distinct, contents, occupied, position_of, voxel_at};
use crate::voxelle::{coord_of, Voxel, VoxelCoord, VoxelEditDelta};

verus! {

/// An object of the scene, as far as meshing asks.
#[derive(Clone, Copy, Debug, PartialEq, Eq, Structural)]
pub struct ObjectState {
    pub visible: bool,
    /// It is moved, turned or scaled.
    pub transformed: bool,
}

/// First step of a full rebuild.
#[derive(Clone, Copy, Debug, PartialEq, Eq, Structural)]
pub enum RebuildStart {
    /// The model is empty.
    NoVoxels,
    /// No voxel is visible.
    AllHidden,
    /// One mesh of everything, made without the device.
    Single(MeshRoute),
    /// No bounds could be found.
    NoBounds,
    /// Made without the device, as `fallback_start` says.
    Fallback,
    /// Pack the slices for the meshing kernel.
    Pack,
}

/// What becomes of a rebuild once the slices are packed.
#[derive(Clone, Copy, Debug, PartialEq, Eq, Structural)]
pub enum RebuildPacked {
    Fallback,
    /// Show nothing.
    Nothing(MeshRoute),
    /// Run the meshing kernel.
    Kernel,
}

/// First step of meshing without the device.
#[derive(Clone, Copy, Debug, PartialEq, Eq, Structural)]
pub enum FallbackStart {
    /// Show nothing.
    Nothing(MeshRoute),
    /// Mesh chunk by chunk.
    Chunks,
    /// One mesh of everything.
    Single(MeshRoute),
}

/// What becomes of a mesh made chunk by chunk.
#[derive(Clone, Copy, Debug, PartialEq, Eq, Structural)]
pub enum FallbackChunks {
    Nothing(MeshRoute),
    Show(MeshRoute),
}

/// Two voxels belong to different objects.
pub open spec fn spans_objects(s: Seq<Voxel>) -> bool {
    exists|i: int, j: int|
        0 <= i < s.len() && 0 <= j < s.len() && (#[trigger] s[i]).object_id != (
        #[trigger] s[j]).object_id
}

/// Some visible object is moved, turned or scaled.
pub open spec fn any_transformed(s: Seq<ObjectState>) -> bool {
    exists|i: int| 0 <= i < s.len() && (#[trigger] s[i]).visible && s[i].transformed
}

/// Whether the voxels belong to more than one object.
pub fn multi_object(work: &[Voxel]) -> (r: bool)
    ensures
        r == spans_objects(work@),
{
    let n: usize = work.len();
    if n == 0 {
        return false;
    }
    let first: u32 = work[0].object_id;
    let mut i: usize = 1;
    while i < n
        invariant
            1 <= i <= n,
            n == work@.len(),
            first == work@[0].object_id,
            forall|k: int| 0 <= k < i ==> (#[trigger] work@[k]).object_id == first,
        decreases n - i,
    {
        if work[i].object_id != first {
            assert(work@[0].object_id != work@[i as int].object_id);
            return true;
        }
        i += 1;
    }
    false
}

/// Whether a visible object is moved, turned or scaled.
pub fn transformed_object(objects: &[ObjectState]) -> (r: bool)
    ensures
        r == any_transformed(objects@),
{
    let n: usize = objects.len();
    let mut i: usize = 0;
    while i < n
        invariant
            i <= n,
            n == objects@.len(),
            forall|k: int|
                0 <= k < i ==> !((#[trigger] objects@[k]).visible && objects@[k].transformed),
        decreases n - i,
    {
        if objects[i].visible && objects[i].transformed {
            assert(objects@[i as int].visible);
            return true;
        }
        i += 1;
    }
    false
}

/// First step of a full rebuild.
pub open spec fn rebuild_start(
    voxels: int,
    work: Seq<Voxel>,
    objects: Seq<ObjectState>,
    all_bounded: bool,
    bounded: bool,
    forced: bool,
) -> RebuildStart {
    if voxels == 0 {
        RebuildStart::NoVoxels
    } else if work.len() == 0 {
        RebuildStart::AllHidden
    } else if spans_objects(work) || any_transformed(objects) {
        if !all_bounded {
            RebuildStart::NoBounds
        } else if spans_objects(work) {
            RebuildStart::Single(MeshRoute::CpuMultiObject)
        } else {
            RebuildStart::Single(MeshRoute::CpuObjectTransform)
        }
    } else if !bounded {
        RebuildStart::NoBounds
    } else if forced {
        RebuildStart::Fallback
    } else {
        RebuildStart::Pack
    }
}

/// First step of a full rebuild. `work` holds the visible voxels of the model,
/// `objects` its objects, or the default ones where it names none. `all_bounded`
/// says that bounds of the whole model were found, `bounded` that bounds of its
/// visible voxels were, `forced` that the device is not to be used.
pub fn compute_greedy_rebuild_cpu(
    voxel_count: usize,
    work: &[Voxel],
    objects: &[ObjectState],
    all_bounded: bool,
    bounded: bool,
    forced: bool,
) -> (r: RebuildStart)
    ensures
        r == rebuild_start(voxel_count as int, work@, objects@, all_bounded, bounded, forced),
{
    if voxel_count == 0 {
        return RebuildStart::NoVoxels;
    }
    if work.len() == 0 {
        return RebuildStart::AllHidden;
    }
    let multi = multi_object(work);
    if multi || transformed_object(objects) {
        if !all_bounded {
            return RebuildStart::NoBounds;
        }
        return RebuildStart::Single(
            if multi {
                MeshRoute::CpuMultiObject
            } else {
                MeshRoute::CpuObjectTransform
            },
        );
    }
    if !bounded {
        RebuildStart::NoBounds
    } else if forced {
        RebuildStart::Fallback
    } else {
        RebuildStart::Pack
    }
}

/// What becomes of a rebuild once the slices are packed: `slices` is their
/// number, `None` if they could not be packed.
pub fn rebuild_packed(slices: Option<usize>) -> (r: RebuildPacked)
    ensures
        r == (match slices {
            None => RebuildPacked::Fallback,
            Some(n) => if n == 0 {
                RebuildPacked::Nothing(MeshRoute::GpuNoHeaders)
            } else {
                RebuildPacked::Kernel
            },
        }),
{
    match slices {
        None => RebuildPacked::Fallback,
        Some(n) => if n == 0 {
            RebuildPacked::Nothing(MeshRoute::GpuNoHeaders)
        } else {
            RebuildPacked::Kernel
        },
    }
}

/// First step of meshing without the device. `chunk_from` is the number of
/// voxels from which on a model is meshed in chunks.
pub fn cpu_mesh_fallback_prepare(work: &[Voxel], chunk_from: usize) -> (r: FallbackStart)
    ensures
        r == (if work@.len() == 0 {
            FallbackStart::Nothing(MeshRoute::CpuEmpty)
        } else if work@.len() >= chunk_from && !spans_objects(work@) {
            FallbackStart::Chunks
        } else {
            FallbackStart::Single(MeshRoute::Cpu)
        }),
{
    let n: usize = work.len();
    if n == 0 {
        FallbackStart::Nothing(MeshRoute::CpuEmpty)
    } else if n >= chunk_from && !multi_object(work) {
        FallbackStart::Chunks
    } else {
        FallbackStart::Single(MeshRoute::Cpu)
    }
}

/// What becomes of a mesh made chunk by chunk: `chunks` is the number of chunks
/// with a mesh, `None` if there is no chunk grid.
pub fn fallback_chunks(chunks: Option<usize>) -> (r: FallbackChunks)
    ensures
        r == (match chunks {
            None => FallbackChunks::Nothing(MeshRoute::CpuChunkedNone),
            Some(n) => if n == 0 {
                FallbackChunks::Nothing(MeshRoute::CpuChunkedEmpty)
            } else {
                FallbackChunks::Show(MeshRoute::CpuChunked)
            },
        }),
{
    match chunks {
        None => FallbackChunks::Nothing(MeshRoute::CpuChunkedNone),
        Some(n) => if n == 0 {
            FallbackChunks::Nothing(MeshRoute::CpuChunkedEmpty)
        } else {
            FallbackChunks::Show(MeshRoute::CpuChunked)
        },
    }
}

/// The meshing kernel only ever sees models that are one object at rest.
pub proof fn law_kernel_sees_one_object_at_rest(
    voxels: int,
    work: Seq<Voxel>,
    objects: Seq<ObjectState>,
    all_bounded: bool,
    bounded: bool,
    forced: bool,
    i: int,
    j: int,
)
    requires
        rebuild_start(voxels, work, objects, all_bounded, bounded, forced) == RebuildStart::Pack,
        0 <= i < work.len(),
        0 <= j < work.len(),
    ensures
        work[i].object_id == work[j].object_id,
        !any_transformed(objects),
        !forced,
{
}

/// First step of making chunks anew.
#[derive(Clone, Copy, Debug, PartialEq, Eq, Structural)]
pub enum RemeshStart {
    /// No voxel is left: show an empty mesh.
    Nothing,
    /// The chunk grid has moved: make every chunk.
    Everything,
    /// Make the chunks that were asked for.
    Chunks,
}

/// First step of making chunks anew. `grid` is the origin of the chunk grid
/// over the present voxels, `None` without voxels; `shown` the origin of the
/// grid that is drawn.
pub fn remesh_start(grid: Option<VoxelCoord>, shown: VoxelCoord) -> (r: RemeshStart)
    ensures
        r == (match grid {
            None => RemeshStart::Nothing,
            Some(g) => if g == shown {
                RemeshStart::Chunks
            } else {
                RemeshStart::Everything
            },
        }),
{
    match grid {
        None => RemeshStart::Nothing,
        Some(g) => if g.0 == shown.0 && g.1 == shown.1 && g.2 == shown.2 {
            RemeshStart::Chunks
        } else {
            RemeshStart::Everything
        },
    }
}

/// A mesh of the whole model, ready for the viewer.
#[derive(Debug)]
pub enum PreparedGreedyRebuild {
    NoVoxels,
    AllHidden,
    Opaque { opaque: PreparedOpaqueUpload, last_route: MeshRoute },
    /// The slices are packed for the meshing kernel.
    GpuGreedyPack,
}

/// What the viewer does with a mesh of the whole model.
#[derive(Debug)]
pub enum RebuildApplied {
    /// Make the draw buffers of these chunks.
    Upload(Vec<ChunkMesh>),
    /// Run the meshing kernel.
    RunKernel,
}

/// A mesh made without the device.
#[derive(Debug)]
pub enum CpuMesh {
    Nothing,
    Chunks(Option<(VoxelCoord, Vec<ChunkMesh>)>),
    Single { mesh: MeshBuffers, split: u32 },
}

/// What is done to the spatial index of the chunks for an edit.
#[derive(Clone, Copy, Debug, PartialEq, Eq, Structural)]
pub enum SpatialEdit {
    Add(Voxel),
    Remove { x: i32, y: i32, z: i32 },
    Paint(Voxel),
}

impl OpaqueScene {
    /// Puts a mesh of the whole model on display.
    pub fn apply_prepared_greedy_rebuild(&mut self, prepared: PreparedGreedyRebuild) -> (r: Result<
        RebuildApplied,
        EmptyVoxels,
    >)
        requires
            old(self).well_formed(),
            prepared matches PreparedGreedyRebuild::Opaque { opaque, .. } ==> (
            opaque matches PreparedOpaqueUpload::Chunked { meshes, .. } ==> keys_ascend(meshes@)),
        ensures
            final(self).well_formed(),
            match prepared {
                PreparedGreedyRebuild::NoVoxels => {
                    &&& r == Err::<RebuildApplied, EmptyVoxels>(EmptyVoxels)
                    &&& single_cleared(*final(self)) && chunks_cleared(*final(self))
                    &&& final(self).pending@ == old(self).pending@
                    &&& final(self).chunk_grid_origin == old(self).chunk_grid_origin
                    &&& final(self).route == old(self).route
                },
                PreparedGreedyRebuild::AllHidden => {
                    &&& r == Err::<RebuildApplied, EmptyVoxels>(EmptyVoxels)
                    &&& single_cleared(*final(self)) && chunks_cleared(*final(self))
                    &&& final(self).pending@ == old(self).pending@
                    &&& final(self).chunk_grid_origin == old(self).chunk_grid_origin
                    &&& final(self).route == MeshRoute::AllHidden
                },
                PreparedGreedyRebuild::Opaque { opaque, last_route } => {
                    &&& r matches Ok(RebuildApplied::Upload(now)) && uploaded(
                        *final(self),
                        opaque,
                        now@,
                    )
                    &&& opaque is Empty || opaque is Single ==> final(self).chunk_grid_origin
                        == old(self).chunk_grid_origin
                    &&& opaque is ChunkedDeferred ==> final(self).opaque_index_split == old(
                        self,
                    ).opaque_index_split
                    &&& final(self).route == last_route
                },
                PreparedGreedyRebuild::GpuGreedyPack => {
                    r == Ok::<RebuildApplied, EmptyVoxels>(RebuildApplied::RunKernel)
                        && *final(self) == *old(self)
                },
            },
    {
        match prepared {
            PreparedGreedyRebuild::NoVoxels => match self.apply_no_visible_voxels(false) {
                Ok(_) => Ok(RebuildApplied::RunKernel),
                Err(e) => Err(e),
            },
            PreparedGreedyRebuild::AllHidden => match self.apply_no_visible_voxels(true) {
                Ok(_) => Ok(RebuildApplied::RunKernel),
                Err(e) => Err(e),
            },
            PreparedGreedyRebuild::Opaque { opaque, last_route } => {
                let now = self.upload_prepared_opaque(opaque);
                self.route = last_route;
                Ok(RebuildApplied::Upload(now))
            },
            PreparedGreedyRebuild::GpuGreedyPack => Ok(RebuildApplied::RunKernel),
        }
    }

    /// Puts a mesh made without the device on display.
    pub fn cpu_mesh_fallback(&mut self, made: &CpuMesh)
        requires
            old(self).well_formed(),
            made matches CpuMesh::Chunks(Some(b)) ==> keys_ascend(b.1@),
        ensures
            final(self).well_formed(),
            final(self).pending@ == old(self).pending@,
            match made {
                CpuMesh::Nothing => {
                    &&& chunks_cleared(*final(self))
                    &&& final(self).vertex_bytes == Some(0u64)
                    &&& final(self).index_count == 0 && final(self).opaque_index_split == 0
                    &&& final(self).chunk_grid_origin == old(self).chunk_grid_origin
                    &&& final(self).route == MeshRoute::CpuEmpty
                },
                CpuMesh::Chunks(None) => {
                    &&& single_cleared(*final(self)) && chunks_cleared(*final(self))
                    &&& final(self).chunk_grid_origin == old(self).chunk_grid_origin
                    &&& final(self).route == old(self).route
                },
                CpuMesh::Chunks(Some(b)) => {
                    &&& single_cleared(*final(self))
                    &&& final(self).chunks.entries@ == drawn(b.1@)
                    &&& final(self).chunk_grid_origin == b.0
                    &&& final(self).chunked == (b.1@.len() > 0)
                    &&& final(self).spatial_cache == (b.1@.len() > 0)
                    &&& final(self).route == (if b.1@.len() > 0 {
                        MeshRoute::CpuChunked
                    } else {
                        old(self).route
                    })
                },
                CpuMesh::Single { mesh, split } => {
                    &&& holds_mesh(*final(self), *mesh, *split)
                    &&& final(self).chunk_grid_origin == old(self).chunk_grid_origin
                    &&& final(self).route == MeshRoute::Cpu
                },
            },
    {
        match made {
            CpuMesh::Nothing => {
                self.upload_mesh(&MeshBuffers::empty(), 0);
                self.route = MeshRoute::CpuEmpty;
            },
            CpuMesh::Chunks(built) => {
                self.upload_cpu_mesh_chunked_full(built);
            },
            CpuMesh::Single { mesh, split } => {
                self.upload_mesh(mesh, *split);
                self.route = MeshRoute::Cpu;
            },
        }
    }

    /// Begins to make chunks anew. `grid` is the origin of the spatial index,
    /// made now from the present voxels if it was not there, `None` without
    /// voxels; then an empty mesh is shown.
    pub fn remesh_opaque_chunks(&mut self, grid: Option<VoxelCoord>) -> (r: RemeshStart)
        requires
            old(self).well_formed(),
        ensures
            final(self).well_formed(),
            r == (match grid {
                None => RemeshStart::Nothing,
                Some(g) => if g == old(self).chunk_grid_origin {
                    RemeshStart::Chunks
                } else {
                    RemeshStart::Everything
                },
            }),
            r == RemeshStart::Nothing ==> {
                &&& chunks_cleared(*final(self))
                &&& final(self).vertex_bytes == Some(0u64)
                &&& final(self).index_count == 0 && final(self).opaque_index_split == 0
                &&& final(self).pending@ == old(self).pending@
                &&& final(self).chunk_grid_origin == old(self).chunk_grid_origin
                &&& final(self).route == old(self).route
            },
            r != RemeshStart::Nothing ==> *final(self) == (OpaqueScene {
                spatial_cache: true,
                ..*old(self)
            }),
    {
        let r = remesh_start(grid, self.chunk_grid_origin);
        if grid.is_none() {
            self.upload_mesh(&MeshBuffers::empty(), 0);
        } else {
            self.set_spatial_mesh_cache();
        }
        r
    }

    /// Takes what the kernel made of a chunk: `made` as in `after_kernel`.
    /// `MeshWithout` leaves the chunk as it is, to be made without the kernel.
    pub fn apply_kernel_chunk(&mut self, key: ChunkKey, made: Option<(u32, u32)>) -> (r: ChunkOutcome)
        requires
            old(self).well_formed(),
        ensures
            final(self).well_formed(),
            *final(self) == (OpaqueScene { chunks: final(self).chunks, ..*old(self) }),
            r == after_kernel(made),
            forall|k: ChunkKey|
                #[trigger] lookup(final(self).chunks.entries@, k) == (if k != key {
                    lookup(old(self).chunks.entries@, k)
                } else {
                    match r {
                        ChunkOutcome::Remove => None,
                        ChunkOutcome::FromKernel(v, i) => Some(
                            refilled(lookup(old(self).chunks.entries@, key), kernel_draw(v, i)),
                        ),
                        _ => lookup(old(self).chunks.entries@, key),
                    }
                }),
    {
        let r = chunk_after_kernel(made);
        match r {
            ChunkOutcome::Remove => self.remove_chunk(key),
            ChunkOutcome::FromKernel(v, i) => {
                let _ = self.upload_or_replace_chunk_mesh_from_gpu_scratch(key, v, i);
            },
            _ => {},
        }
        r
    }

    /// Takes the mesh of a chunk that was made without the kernel; one without
    /// indices takes the chunk away.
    pub fn apply_meshed_chunk(&mut self, c: &ChunkMesh) -> (r: ChunkOutcome)
        requires
            old(self).well_formed(),
        ensures
            final(self).well_formed(),
            *final(self) == (OpaqueScene { chunks: final(self).chunks, ..*old(self) }),
            r == (if c.mesh.indices@.len() == 0 {
                ChunkOutcome::Remove
            } else {
                ChunkOutcome::FromMesh
            }),
            forall|k: ChunkKey|
                #[trigger] lookup(final(self).chunks.entries@, k) == (if k != c.key {
                    lookup(old(self).chunks.entries@, k)
                } else if r == ChunkOutcome::Remove {
                    None
                } else {
                    Some(
                        refilled(
                            lookup(old(self).chunks.entries@, c.key),
                            draw_of(c.mesh, c.split),
                        ),
                    )
                }),
    {
        let r = chunk_after_mesh(c.mesh.indices.len());
        match r {
            ChunkOutcome::Remove => self.remove_chunk(c.key),
            _ => {
                let _ = self.upload_or_replace_chunk_mesh(c.key, &c.mesh, c.split);
            },
        }
        r
    }

    /// What is done to the spatial index of the chunks for an edit of the
    /// model; nothing while there is no index.
    pub fn apply_spatial_cache_edit(&self, delta: &VoxelEditDelta) -> (r: Option<SpatialEdit>)
        ensures
            r == (if !self.spatial_cache {
                None
            } else {
                Some(
                    match *delta {
                        VoxelEditDelta::Added(v) => SpatialEdit::Add(v),
                        VoxelEditDelta::Removed { voxel } => SpatialEdit::Remove {
                            x: voxel.x,
                            y: voxel.y,
                            z: voxel.z,
                        },
                        VoxelEditDelta::Painted { before, after } => SpatialEdit::Paint(after),
                    },
                )
            }),
    {
        if !self.spatial_cache {
            return None;
        }
        Some(
            match *delta {
                VoxelEditDelta::Added(v) => SpatialEdit::Add(v),
                VoxelEditDelta::Removed { voxel } => SpatialEdit::Remove {
                    x: voxel.x,
                    y: voxel.y,
                    z: voxel.z,
                },
                VoxelEditDelta::Painted { before: _, after } => SpatialEdit::Paint(after),
            },
        )
    }
}

/// What becomes of a chunk after the kernel ran on it. `made` holds the vertices
/// and indices it counted, `None` if it did not run.
pub open spec fn after_kernel(made: Option<(u32, u32)>) -> ChunkOutcome {
    match made {
        None => ChunkOutcome::MeshWithout,
        Some((v, i)) => if v == 0 || i == 0 {
            ChunkOutcome::Remove
        } else {
            ChunkOutcome::FromKernel(v, i)
        },
    }
}

/// Whether a chunk goes through the meshing kernel: `slices` as in `rebuild_packed`.
pub fn chunk_uses_kernel(enabled: bool, core: &[Voxel], slices: Option<usize>) -> (r: bool)
    ensures
        r == (enabled && core@.len() > 0 && slices is Some && slices->0 > 0),
{
    enabled && core.len() > 0 && match slices {
        Some(n) => n > 0,
        None => false,
    }
}

/// What becomes of one chunk.
#[derive(Clone, Copy, Debug, PartialEq, Eq, Structural)]
pub enum ChunkOutcome {
    /// It has nothing to draw.
    Remove,
    /// Take the kernel's vertices and indices.
    FromKernel(u32, u32),
    /// Make it without the kernel.
    MeshWithout,
    /// Take the mesh made without the kernel.
    FromMesh,
}

/// What becomes of a chunk after the kernel ran on it.
pub fn chunk_after_kernel(made: Option<(u32, u32)>) -> (r: ChunkOutcome)
    ensures
        r == after_kernel(made),
{
    match made {
        None => ChunkOutcome::MeshWithout,
        Some(t) => if t.0 == 0 || t.1 == 0 {
            ChunkOutcome::Remove
        } else {
            ChunkOutcome::FromKernel(t.0, t.1)
        },
    }
}

/// What becomes of a chunk meshed without the kernel.
pub fn chunk_after_mesh(indices: usize) -> (r: ChunkOutcome)
    ensures
        r == (if indices == 0 {
            ChunkOutcome::Remove
        } else {
            ChunkOutcome::FromMesh
        }),
{
    if indices == 0 {
        ChunkOutcome::Remove
    } else {
        ChunkOutcome::FromMesh
    }
}

/// Whether progress is worth telling: it grew by at least 40 of 1000 since it
/// was last told, or the work is done.
pub fn progress_due(permille: u32, last: u32, done: u32, total: u32) -> (r: bool)
    ensures
        r == (permille - last >= 40 || done == total),
{
    (permille > last && permille - last >= 40) || done == total
}

/// Cells come by x, then y, then z, none twice.
pub open spec fn in_cell_order(s: Seq<Voxel>) -> bool {
    forall|i: int, j: int|
        0 <= i < j < s.len() ==> cell_le(coord_of(#[trigger] s[i]), coord_of(#[trigger] s[j]))
            && coord_of(s[i]) != coord_of(s[j])
}

/// The voxels of a chunk in cell order.
pub fn chunk_core(bucket: &[Voxel]) -> (r: Vec<Voxel>)
    requires
        cells_distinct(bucket@),
    ensures
        in_cell_order(r@),
        contents(r@) == contents(bucket@),
{
    let n: usize = bucket.len();
    let mut cells: Vec<VoxelCoord> = Vec::new();
    let mut map: CoordMap = coord_map_new();
    let mut i: usize = 0;
    while i < n
        invariant
            i <= n,
            n == bucket@.len(),
            cells_distinct(bucket@),
            cells@.len() == i,
            forall|k: int| 0 <= k < i ==> #[trigger] cells@[k] == coord_of(bucket@[k]),
            forall|c: VoxelCoord|
                #[trigger] entries(map).contains_key(c) ==> entries(map)[c] < i && coord_of(
                    bucket@[entries(map)[c] as int],
                ) == c,
            forall|k: int|
                0 <= k < i ==> entries(map).contains_key(coord_of(#[trigger] bucket@[k]))
                    && entries(map)[coord_of(bucket@[k])] == k,
        decreases n - i,
    {
        let v = bucket[i];
        let c: VoxelCoord = (v.x, v.y, v.z);
        cells.push(c);
        coord_map_insert(&mut map, c, i);
        i += 1;
    }
    let ghost unsorted = cells@;
    sort_cells(&mut cells);
    let ghost sorted = cells@;
    proof {
        lemma_sorted_cells(unsorted, sorted, bucket@);
    }
    let mut r: Vec<Voxel> = Vec::new();
    let mut j: usize = 0;
    while j < n
        invariant
            j <= n,
            n == bucket@.len(),
            sorted == cells@,
            sorted.len() == n,
            r@.len() == j,
            forall|k: int| 0 <= k < n ==> occupied(bucket@, #[trigger] sorted[k]),
            cells_distinct(bucket@),
            forall|c: VoxelCoord|
                #[trigger] entries(map).contains_key(c) ==> entries(map)[c] < n && coord_of(
                    bucket@[entries(map)[c] as int],
                ) == c,
            forall|k: int|
                0 <= k < n ==> entries(map).contains_key(coord_of(#[trigger] bucket@[k]))
                    && entries(map)[coord_of(bucket@[k])] == k,
            forall|k: int|
                0 <= k < j ==> coord_of(#[trigger] r@[k]) == sorted[k] && bucket@.contains(r@[k]),
        decreases n - j,
    {
        let c = cells[j];
        assert(occupied(bucket@, sorted[j as int]));
        let ghost at = position_of(bucket@, c);
        assert(coord_of(bucket@[at]) == c);
        match coord_map_get(&map, &c) {
            Some(p) => {
                assert(bucket@[p as int] == bucket[p as int]);
                r.push(bucket[p]);
            },
            None => {
                assert(false);
            },
        }
        j += 1;
    }
    proof {
        let s = bucket@;
        let t = r@;
        assert forall|a: int, b: int| 0 <= a < b < t.len() implies cell_le(
            coord_of(#[trigger] t[a]),
            coord_of(#[trigger] t[b]),
        ) && coord_of(t[a]) != coord_of(t[b]) by {
            assert(cell_le(sorted[a], sorted[b]));
        }
        assert forall|c: VoxelCoord| occupied(t, c) == occupied(s, c) by {
            if occupied(t, c) {
                let k = position_of(t, c);
                assert(s.contains(t[k]));
            }
            if occupied(s, c) {
                let k = position_of(s, c);
                assert(unsorted[k] == c);
                assert(sorted.contains(c));
                let m = choose|m: int| 0 <= m < sorted.len() && sorted[m] == c;
                assert(coord_of(t[m]) == c);
            }
        }
        assert forall|c: VoxelCoord| occupied(s, c) implies voxel_at(t, c) == voxel_at(s, c) by {
            assert(occupied(t, c));
            let k = position_of(t, c);
            let m = position_of(s, c);
            assert(s.contains(t[k]));
            let q = choose|q: int| 0 <= q < s.len() && s[q] == t[k];
            assert(coord_of(s[q]) == coord_of(s[m]));
        }
        assert(contents(t) =~= contents(s));
    }
    r
}

/// Sorting the cells of distinct voxels keeps them, and none comes twice.
proof fn lemma_sorted_cells(unsorted: Seq<VoxelCoord>, sorted: Seq<VoxelCoord>, voxels: Seq<Voxel>)
    requires
        cells_distinct(voxels),
        unsorted.len() == voxels.len(),
        forall|k: int| 0 <= k < voxels.len() ==> #[trigger] unsorted[k] == coord_of(voxels[k]),
        sorted.to_multiset() == unsorted.to_multiset(),
        cells_sorted(sorted),
    ensures
        sorted.len() == voxels.len(),
        sorted.no_duplicates(),
        forall|k: int| 0 <= k < voxels.len() ==> occupied(voxels, #[trigger] sorted[k]),
        forall|k: int| 0 <= k < voxels.len() ==> sorted.contains(#[trigger] unsorted[k]),
{
    broadcast use vstd::seq_lib::group_to_multiset_ensures;

    assert(sorted.len() == sorted.to_multiset().len());
    assert(unsorted.len() == unsorted.to_multiset().len());
    assert(unsorted.no_duplicates()) by {
        assert forall|i: int, j: int| 0 <= i < unsorted.len() && 0 <= j < unsorted.len() && i
            != j implies unsorted[i] != unsorted[j] by {
            assert(coord_of(voxels[i]) == unsorted[i] && coord_of(voxels[j]) == unsorted[j]);
        }
    }
    unsorted.lemma_multiset_has_no_duplicates();
    sorted.lemma_multiset_has_no_duplicates_conv();
    assert forall|k: int| 0 <= k < voxels.len() implies occupied(voxels, #[trigger] sorted[k]) by {
        assert(sorted.contains(sorted[k]));
        assert(sorted.to_multiset().count(sorted[k]) > 0);
        assert(unsorted.contains(sorted[k]));
        let m = choose|m: int| 0 <= m < unsorted.len() && unsorted[m] == sorted[k];
        assert(coord_of(voxels[m]) == sorted[k]);
    }
    assert forall|k: int| 0 <= k < voxels.len() implies sorted.contains(#[trigger] unsorted[k]) by {
        assert(unsorted.contains(unsorted[k]));
        assert(unsorted.to_multiset().count(unsorted[k]) > 0);
    }
}

} // verus!
