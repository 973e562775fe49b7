//! The opaque mesh on the graphics device: one buffer pair, or one per chunk
//! with the rest of the chunks still waiting, and what is drawn of it.

use std::collections::VecDeque;
use vstd::prelude::*;

use crate::render::chunk_table::{
    index_sum, index_total, key_lt, lemma_index_sum_grows, lemma_vertex_sum_grows, lookup,
    vertex_sum, ChunkDraw, ChunkEntry, ChunkKey, ChunkTable,
};
use crate::render::mesh_buffers::MeshBuffers;
use crate::render::mesh_greedy::INDEX_BYTES;
use crate::render::vertex_layout::OPAQUE_VERTEX_STRIDE;
use crate::voxelle::VoxelCoord;

verus! {

/// Chunks uploaded at once when a chunked mesh arrives; the others follow frame by frame.
pub const INITIAL_BATCH: usize = 8;

/// How the opaque mesh was last made.
#[derive(Clone, Copy, Debug, PartialEq, Eq, Structural)]
pub enum MeshRoute {
    Unset,
    Cpu,
    CpuEmpty,
    CpuChunked,
    CpuChunkedNone,
    CpuChunkedEmpty,
    CpuChunkedDeferred,
    CpuMultiObject,
    CpuObjectTransform,
    GpuNoHeaders,
    GpuGreedy,
    AllHidden,
}

impl MeshRoute {
    /// Name of the route.
    pub open spec fn text(self) -> Seq<char> {
        match self {
            MeshRoute::Unset => ""@,
            MeshRoute::Cpu => "cpu"@,
            MeshRoute::CpuEmpty => "cpu_empty"@,
            MeshRoute::CpuChunked => "cpu_chunked"@,
            MeshRoute::CpuChunkedNone => "cpu_chunked_none"@,
            MeshRoute::CpuChunkedEmpty => "cpu_chunked_empty"@,
            MeshRoute::CpuChunkedDeferred => "cpu_chunked_deferred"@,
            MeshRoute::CpuMultiObject => "cpu_multi_object"@,
            MeshRoute::CpuObjectTransform => "cpu_object_transform"@,
            MeshRoute::GpuNoHeaders => "gpu_no_headers"@,
            MeshRoute::GpuGreedy => "gpu_greedy"@,
            MeshRoute::AllHidden => "all_hidden"@,
        }
    }

    /// Name of the route.
    pub fn name(self) -> (r: &'static str)
        ensures
            r@ == self.text(),
    {
        match self {
            MeshRoute::Unset => "",
            MeshRoute::Cpu => "cpu",
            MeshRoute::CpuEmpty => "cpu_empty",
            MeshRoute::CpuChunked => "cpu_chunked",
            MeshRoute::CpuChunkedNone => "cpu_chunked_none",
            MeshRoute::CpuChunkedEmpty => "cpu_chunked_empty",
            MeshRoute::CpuChunkedDeferred => "cpu_chunked_deferred",
            MeshRoute::CpuMultiObject => "cpu_multi_object",
            MeshRoute::CpuObjectTransform => "cpu_object_transform",
            MeshRoute::GpuNoHeaders => "gpu_no_headers",
            MeshRoute::GpuGreedy => "gpu_greedy",
            MeshRoute::AllHidden => "all_hidden",
        }
    }
}

/// A meshed chunk. The first `split` indices are opaque, the others transparent.
#[derive(Debug)]
pub struct ChunkMesh {
    pub key: ChunkKey,
    pub mesh: MeshBuffers,
    pub split: u32,
}

/// A mesh made ready for upload.
#[derive(Debug)]
pub enum PreparedOpaqueUpload {
    Empty,
    Single { mesh: MeshBuffers, split: u32 },
    Chunked { chunk_origin: VoxelCoord, meshes: Vec<ChunkMesh> },
    /// Chunks arrive later.
    ChunkedDeferred { chunk_origin: VoxelCoord },
}

/// Nothing to show: the model has no voxel that is drawn.
#[derive(Clone, Copy, Debug, PartialEq, Eq, Structural)]
pub struct EmptyVoxels;

/// What to do about a chunk taken from the queue.
#[derive(Debug)]
pub enum PendingStep {
    /// Make its draw buffers.
    Upload(ChunkMesh),
    /// It has draw buffers already.
    Skip,
}

/// A run of indices to draw, of one chunk or of the single mesh.
#[derive(Clone, Copy, Debug, PartialEq, Eq)]
pub struct MeshDraw {
    pub chunk: Option<ChunkKey>,
    pub start: u32,
    pub end: u32,
}

/// State of the opaque mesh.
#[derive(Debug)]
pub struct OpaqueScene {
    /// Bytes of the single vertex buffer; there is an index buffer whenever there is one.
    pub vertex_bytes: Option<u64>,
    pub index_count: u32,
    /// Indices before it are opaque; zero if they are not sorted.
    pub opaque_index_split: u32,
    /// The chunks are drawn, not the single buffers.
    pub chunked: bool,
    pub chunk_grid_origin: VoxelCoord,
    pub chunks: ChunkTable,
    pub pending: VecDeque<ChunkMesh>,
    /// The spatial index of the chunks is there.
    pub spatial_cache: bool,
    pub route: MeshRoute,
}

/// At most the largest 64 bit number.
pub open spec fn capped64(n: int) -> int {
    if n > u64::MAX {
        u64::MAX as int
    } else {
        n
    }
}

/// Bytes of `count` items of `each` bytes.
fn byte_size(count: usize, each: u64) -> (r: u64)
    requires
        each == OPAQUE_VERTEX_STRIDE || each == INDEX_BYTES,
    ensures
        r == capped64(count * each),
{
    let n: u64 = count as u64;
    if n > u64::MAX / each {
        u64::MAX
    } else {
        n * each
    }
}

/// Number of indices, as the device counts them.
pub open spec fn index_count_of(m: MeshBuffers) -> u32 {
    m.indices@.len() as u32
}

/// Bytes of the vertex buffer of a mesh.
pub open spec fn vertex_bytes_of(m: MeshBuffers) -> u64 {
    capped64(m.vertices() * OPAQUE_VERTEX_STRIDE) as u64
}

/// Bytes of the index buffer of a mesh.
pub open spec fn index_bytes_of(m: MeshBuffers) -> u64 {
    capped64(m.indices@.len() * INDEX_BYTES) as u64
}

/// Indices after the split.
pub open spec fn after_split(count: u32, split: u32) -> u32 {
    if count > split {
        (count - split) as u32
    } else {
        0
    }
}

/// Draw buffers made for a meshed chunk.
pub open spec fn draw_of(m: MeshBuffers, split: u32) -> ChunkDraw {
    ChunkDraw {
        vertex_bytes: vertex_bytes_of(m),
        index_bytes: index_bytes_of(m),
        opaque_index_count: split,
        transparent_index_count: after_split(index_count_of(m), split),
        partitioned: true,
    }
}

/// Draw buffers made for some chunks.
pub open spec fn drawn(s: Seq<ChunkMesh>) -> Seq<ChunkEntry> {
    Seq::new(s.len(), |i: int| ChunkEntry { key: s[i].key, draw: draw_of(s[i].mesh, s[i].split) })
}

/// Keys ascend.
pub open spec fn keys_ascend(s: Seq<ChunkMesh>) -> bool {
    forall|i: int, j: int| 0 <= i < j < s.len() ==> #[trigger] key_lt(s[i].key, s[j].key)
}

/// The single buffers are gone.
pub open spec fn single_cleared(s: OpaqueScene) -> bool {
    s.vertex_bytes is None && s.index_count == 0 && s.opaque_index_split == 0
}

/// The chunks are gone and are not drawn.
pub open spec fn chunks_cleared(s: OpaqueScene) -> bool {
    !s.chunked && s.chunks.entries@.len() == 0 && !s.spatial_cache
}

/// The single buffers hold a mesh, and it is what is drawn.
pub open spec fn holds_mesh(s: OpaqueScene, m: MeshBuffers, split: u32) -> bool {
    &&& chunks_cleared(s)
    &&& s.vertex_bytes == Some(vertex_bytes_of(m))
    &&& s.index_count == index_count_of(m)
    &&& s.opaque_index_split == split
}

/// What a scene shows after a prepared mesh was uploaded, with the chunks `now`
/// to be made at once; the route aside.
pub open spec fn uploaded(s: OpaqueScene, opaque: PreparedOpaqueUpload, now: Seq<ChunkMesh>) -> bool {
    match opaque {
        PreparedOpaqueUpload::Empty => {
            &&& now.len() == 0
            &&& single_cleared(s) && chunks_cleared(s)
            &&& s.pending@.len() == 0
        },
        PreparedOpaqueUpload::Single { mesh, split } => {
            &&& now.len() == 0
            &&& holds_mesh(s, mesh, split)
            &&& s.pending@.len() == 0
        },
        PreparedOpaqueUpload::Chunked { chunk_origin, meshes } => {
            let first = if meshes@.len() < INITIAL_BATCH {
                meshes@.len() as int
            } else {
                INITIAL_BATCH as int
            };
            &&& now == meshes@.take(first)
            &&& s.pending@ == meshes@.skip(first)
            &&& single_cleared(s)
            &&& s.chunks.entries@ == drawn(now)
            &&& s.chunk_grid_origin == chunk_origin
            &&& s.chunked == (meshes@.len() > 0) && s.spatial_cache == (meshes@.len() > 0)
        },
        PreparedOpaqueUpload::ChunkedDeferred { chunk_origin } => {
            &&& now.len() == 0
            &&& s.vertex_bytes is None && s.index_count == 0
            &&& s.chunked && !s.spatial_cache
            &&& s.chunks.entries@.len() == 0 && s.pending@.len() == 0
            &&& s.chunk_grid_origin == chunk_origin
        },
    }
}

/// Makes the draw buffers of a chunk.
fn opaque_draw_from_mesh(mesh: &MeshBuffers, split: u32) -> (r: ChunkDraw)
    ensures
        r == draw_of(*mesh, split),
        index_total(r) <= u32::MAX,
{
    let count: u32 = mesh.indices.len() as u32;
    ChunkDraw {
        vertex_bytes: byte_size(mesh.vertex_count(), OPAQUE_VERTEX_STRIDE),
        index_bytes: byte_size(mesh.indices.len(), INDEX_BYTES),
        opaque_index_count: split,
        transparent_index_count: if count > split {
            count - split
        } else {
            0
        },
        partitioned: true,
    }
}

/// The draw buffers of chunks whose keys ascend.
fn draws_of(meshes: &Vec<ChunkMesh>, n: usize) -> (r: ChunkTable)
    requires
        keys_ascend(meshes@),
        n <= meshes@.len(),
    ensures
        r.well_formed(),
        r.entries@ == drawn(meshes@.take(n as int)),
{
    let mut entries: Vec<ChunkEntry> = Vec::new();
    let mut i: usize = 0;
    while i < n
        invariant
            i <= n,
            n <= meshes@.len(),
            entries@ == drawn(meshes@.take(i as int)),
            forall|k: int|
                0 <= k < entries@.len() ==> index_total((#[trigger] entries@[k]).draw) <= u32::MAX,
        decreases n - i,
    {
        let ghost was = entries@;
        entries.push(
            ChunkEntry {
                key: meshes[i].key,
                draw: opaque_draw_from_mesh(&meshes[i].mesh, meshes[i].split),
            },
        );
        assert(entries@ =~= drawn(meshes@.take(i as int + 1)));
        i += 1;
    }
    proof {
        let s = entries@;
        assert forall|a: int, b: int| 0 <= a < b < s.len() implies #[trigger] key_lt(
            s[a].key,
            s[b].key,
        ) by {
            assert(key_lt(meshes@[a].key, meshes@[b].key));
        }
    }
    ChunkTable { entries }
}

impl OpaqueScene {
    /// The chunk table is in order.
    pub open spec fn well_formed(&self) -> bool {
        self.chunks.well_formed()
    }

    /// Nothing uploaded yet.
    pub fn new() -> (r: OpaqueScene)
        ensures
            r.well_formed(),
            single_cleared(r),
            chunks_cleared(r),
            r.chunk_grid_origin == (0i32, 0i32, 0i32),
            r.pending@.len() == 0,
            r.route == MeshRoute::Unset,
    {
        OpaqueScene {
            vertex_bytes: None,
            index_count: 0,
            opaque_index_split: 0,
            chunked: false,
            chunk_grid_origin: (0, 0, 0),
            chunks: ChunkTable::new(),
            pending: VecDeque::new(),
            spatial_cache: false,
            route: MeshRoute::Unset,
        }
    }

    /// Shows one mesh from single buffers. Chunks that wait keep waiting.
    pub fn upload_mesh(&mut self, mesh: &MeshBuffers, split: u32)
        requires
            old(self).well_formed(),
        ensures
            final(self).well_formed(),
            holds_mesh(*final(self), *mesh, split),
            final(self).pending@ == old(self).pending@,
            final(self).chunk_grid_origin == old(self).chunk_grid_origin,
            final(self).route == old(self).route,
    {
        self.chunked = false;
        self.chunks = ChunkTable::new();
        self.spatial_cache = false;
        self.vertex_bytes = Some(byte_size(mesh.vertex_count(), OPAQUE_VERTEX_STRIDE));
        self.index_count = mesh.indices.len() as u32;
        self.opaque_index_split = split;
    }

    /// Whether chunks wait for upload.
    pub fn has_pending_chunk_uploads(&self) -> (r: bool)
        ensures
            r == (self.pending@.len() > 0),
    {
        self.pending.len() > 0
    }

    /// Moves chunks from an inbox to the end of the queue.
    pub fn enqueue_chunk_uploads(&mut self, inbox: &mut VecDeque<ChunkMesh>)
        requires
            old(self).well_formed(),
        ensures
            final(self).well_formed(),
            final(self).pending@ == old(self).pending@ + old(inbox)@,
            final(inbox)@.len() == 0,
            *final(self) == (OpaqueScene { pending: final(self).pending, ..*old(self) }),
    {
        self.pending.append(inbox);
    }

    /// Whether the spatial index of the chunks is there.
    pub fn has_spatial_mesh_cache(&self) -> (r: bool)
        ensures
            r == self.spatial_cache,
    {
        self.spatial_cache
    }

    /// The spatial index of the chunks has arrived.
    pub fn set_spatial_mesh_cache(&mut self)
        ensures
            *final(self) == (OpaqueScene { spatial_cache: true, ..*old(self) }),
    {
        self.spatial_cache = true;
    }

    /// Drops the spatial index, so that every chunk is meshed anew.
    pub fn invalidate_spatial_mesh_cache(&mut self)
        ensures
            *final(self) == (OpaqueScene { spatial_cache: false, ..*old(self) }),
    {
        self.spatial_cache = false;
    }

    /// Takes the next chunk from the queue. A chunk that has draw buffers
    /// already keeps them: what waited is older than what is there.
    pub fn drain_pending_chunk_uploads(&mut self) -> (r: Option<PendingStep>)
        requires
            old(self).well_formed(),
        ensures
            final(self).well_formed(),
            *final(self) == (OpaqueScene {
                pending: final(self).pending,
                chunks: final(self).chunks,
                ..*old(self)
            }),
            old(self).pending@.len() == 0 ==> r is None && final(self).pending@ == old(
                self,
            ).pending@ && final(self).chunks == old(self).chunks,
            old(self).pending@.len() > 0 ==> {
                let c = old(self).pending@[0];
                &&& final(self).pending@ == old(self).pending@.skip(1)
                &&& if lookup(old(self).chunks.entries@, c.key) is Some {
                    r == Some(PendingStep::Skip) && final(self).chunks == old(self).chunks
                } else {
                    &&& r == Some(PendingStep::Upload(c))
                    &&& forall|k: ChunkKey|
                        #[trigger] lookup(final(self).chunks.entries@, k) == (if k == c.key {
                            Some(draw_of(c.mesh, c.split))
                        } else {
                            lookup(old(self).chunks.entries@, k)
                        })
                }
            },
    {
        match self.pending.pop_front() {
            None => None,
            Some(c) => {
                assert(c == old(self).pending@[0]);
                assert(self.pending@ =~= old(self).pending@.skip(1));
                if self.chunks.get(c.key).is_some() {
                    Some(PendingStep::Skip)
                } else {
                    let draw = opaque_draw_from_mesh(&c.mesh, c.split);
                    self.chunks.insert(c.key, draw);
                    Some(PendingStep::Upload(c))
                }
            },
        }
    }

    /// Whether one more waiting chunk is taken up: while there is one and the time for
    /// it is not spent.
    pub fn drain_goes_on(&self, spent: bool) -> (r: bool)
        ensures
            r == (!spent && self.pending@.len() > 0),
    {
        !spent && self.pending.len() > 0
    }

    /// Shows a mesh that was made ready. The result holds the chunks whose draw
    /// buffers are to be made now; later ones wait in the queue.
    pub fn upload_prepared_opaque(&mut self, opaque: PreparedOpaqueUpload) -> (now: Vec<ChunkMesh>)
        requires
            old(self).well_formed(),
            opaque matches PreparedOpaqueUpload::Chunked { meshes, .. } ==> keys_ascend(meshes@),
        ensures
            final(self).well_formed(),
            uploaded(*final(self), opaque, now@),
            opaque is Empty || opaque is Single ==> final(self).chunk_grid_origin == old(
                self,
            ).chunk_grid_origin,
            opaque is ChunkedDeferred ==> final(self).opaque_index_split == old(
                self,
            ).opaque_index_split,
            final(self).route == (match opaque {
                PreparedOpaqueUpload::Chunked { meshes, .. } => if meshes@.len() > 0 {
                    MeshRoute::CpuChunked
                } else {
                    old(self).route
                },
                PreparedOpaqueUpload::ChunkedDeferred { .. } => MeshRoute::CpuChunkedDeferred,
                _ => MeshRoute::Cpu,
            }),
    {
        match opaque {
            PreparedOpaqueUpload::Empty => {
                self.clear_draws();
                self.pending.clear();
                self.route = MeshRoute::Cpu;
                Vec::new()
            },
            PreparedOpaqueUpload::Single { mesh, split } => {
                self.pending.clear();
                self.upload_mesh(&mesh, split);
                self.route = MeshRoute::Cpu;
                Vec::new()
            },
            PreparedOpaqueUpload::Chunked { chunk_origin, meshes } => {
                self.clear_draws();
                self.pending.clear();
                self.chunk_grid_origin = chunk_origin;
                let n: usize = meshes.len();
                if n == 0 {
                    assert(meshes@ =~= meshes@.take(0));
                    assert(self.pending@ =~= meshes@.skip(0));
                    assert(self.chunks.entries@ =~= drawn(meshes@));
                    return meshes;
                }
                self.chunked = true;
                let first: usize = if n < INITIAL_BATCH {
                    n
                } else {
                    INITIAL_BATCH
                };
                let ghost all = meshes@;
                self.chunks = draws_of(&meshes, first);
                let mut now = meshes;
                let mut rest = now.split_off(first);
                let ghost later = rest@;
                let mut waiting: VecDeque<ChunkMesh> = VecDeque::new();
                while rest.len() > 0
                    invariant
                        later == rest@ + waiting@,
                    decreases rest@.len(),
                {
                    let ghost r0 = rest@;
                    let ghost w0 = waiting@;
                    match rest.pop() {
                        Some(c) => {
                            waiting.push_front(c);
                            assert(rest@ + waiting@ =~= r0 + w0);
                        },
                        None => {},
                    }
                }
                assert(waiting@ =~= later);
                self.pending = waiting;
                self.spatial_cache = true;
                self.route = MeshRoute::CpuChunked;
                assert(now@ =~= all.take(first as int));
                assert(later =~= all.skip(first as int));
                now
            },
            PreparedOpaqueUpload::ChunkedDeferred { chunk_origin } => {
                self.vertex_bytes = None;
                self.index_count = 0;
                self.chunks = ChunkTable::new();
                self.pending.clear();
                self.chunk_grid_origin = chunk_origin;
                self.chunked = true;
                self.spatial_cache = false;
                self.route = MeshRoute::CpuChunkedDeferred;
                Vec::new()
            },
        }
    }

    /// Takes every draw buffer away. Chunks that wait keep waiting.
    fn clear_draws(&mut self)
        ensures
            final(self).well_formed(),
            single_cleared(*final(self)),
            chunks_cleared(*final(self)),
            final(self).pending@ == old(self).pending@,
            final(self).chunk_grid_origin == old(self).chunk_grid_origin,
            final(self).route == old(self).route,
    {
        self.vertex_bytes = None;
        self.index_count = 0;
        self.opaque_index_split = 0;
        self.chunked = false;
        self.chunks = ChunkTable::new();
        self.spatial_cache = false;
    }

    /// Shows every chunk of a mesh at once, or nothing where there is no chunk.
    pub fn upload_cpu_mesh_chunked_full(&mut self, built: &Option<(VoxelCoord, Vec<ChunkMesh>)>)
        requires
            old(self).well_formed(),
            built matches Some(b) ==> keys_ascend(b.1@),
        ensures
            final(self).well_formed(),
            single_cleared(*final(self)),
            final(self).pending@ == old(self).pending@,
            match built {
                None => {
                    &&& chunks_cleared(*final(self))
                    &&& final(self).chunk_grid_origin == old(self).chunk_grid_origin
                    &&& final(self).route == old(self).route
                },
                Some(b) => {
                    let some = b.1@.len() > 0;
                    &&& final(self).chunk_grid_origin == b.0
                    &&& final(self).chunks.entries@ == drawn(b.1@)
                    &&& final(self).chunked == some && final(self).spatial_cache == some
                    &&& final(self).route == (if some {
                        MeshRoute::CpuChunked
                    } else {
                        old(self).route
                    })
                },
            },
    {
        self.clear_draws();
        match built {
            None => {},
            Some(b) => {
                self.chunk_grid_origin = b.0;
                let n: usize = b.1.len();
                assert(b.1@.take(n as int) =~= b.1@);
                if n > 0 {
                    self.chunked = true;
                    self.chunks = draws_of(&b.1, n);
                    self.spatial_cache = true;
                    self.route = MeshRoute::CpuChunked;
                }
            },
        }
    }

    /// Gives a chunk a new mesh. The result says whether its buffers are
    /// written over; otherwise new ones are made.
    pub fn upload_or_replace_chunk_mesh(&mut self, key: ChunkKey, mesh: &MeshBuffers, split: u32) -> (
        reuse: bool)
        requires
            old(self).well_formed(),
        ensures
            final(self).well_formed(),
            *final(self) == (OpaqueScene { chunks: final(self).chunks, ..*old(self) }),
            reuse == has_room(
                lookup(old(self).chunks.entries@, key),
                vertex_bytes_of(*mesh),
                index_bytes_of(*mesh),
            ),
            forall|k: ChunkKey|
                #[trigger] lookup(final(self).chunks.entries@, k) == (if k == key {
                    Some(
                        refilled(
                            lookup(old(self).chunks.entries@, key),
                            draw_of(*mesh, split),
                        ),
                    )
                } else {
                    lookup(old(self).chunks.entries@, k)
                }),
    {
        let draw = opaque_draw_from_mesh(mesh, split);
        self.refill(key, draw)
    }

    /// Gives a chunk the mesh that the meshing kernel left in its scratch
    /// buffers: `v_total` vertices and `i_total` indices, not sorted by transparency.
    pub fn upload_or_replace_chunk_mesh_from_gpu_scratch(
        &mut self,
        key: ChunkKey,
        v_total: u32,
        i_total: u32,
    ) -> (reuse: bool)
        requires
            old(self).well_formed(),
        ensures
            final(self).well_formed(),
            *final(self) == (OpaqueScene { chunks: final(self).chunks, ..*old(self) }),
            reuse == has_room(
                lookup(old(self).chunks.entries@, key),
                kernel_draw(v_total, i_total).vertex_bytes,
                kernel_draw(v_total, i_total).index_bytes,
            ),
            forall|k: ChunkKey|
                #[trigger] lookup(final(self).chunks.entries@, k) == (if k == key {
                    Some(
                        refilled(
                            lookup(old(self).chunks.entries@, key),
                            kernel_draw(v_total, i_total),
                        ),
                    )
                } else {
                    lookup(old(self).chunks.entries@, k)
                }),
    {
        let draw = ChunkDraw {
            vertex_bytes: v_total as u64 * OPAQUE_VERTEX_STRIDE,
            index_bytes: i_total as u64 * INDEX_BYTES,
            opaque_index_count: i_total,
            transparent_index_count: 0,
            partitioned: false,
        };
        self.refill(key, draw)
    }

    fn refill(&mut self, key: ChunkKey, draw: ChunkDraw) -> (reuse: bool)
        requires
            old(self).well_formed(),
            index_total(draw) <= u32::MAX,
        ensures
            final(self).well_formed(),
            *final(self) == (OpaqueScene { chunks: final(self).chunks, ..*old(self) }),
            reuse == has_room(
                lookup(old(self).chunks.entries@, key),
                draw.vertex_bytes,
                draw.index_bytes,
            ),
            forall|k: ChunkKey|
                #[trigger] lookup(final(self).chunks.entries@, k) == (if k == key {
                    Some(refilled(lookup(old(self).chunks.entries@, key), draw))
                } else {
                    lookup(old(self).chunks.entries@, k)
                }),
    {
        match self.chunks.get(key) {
            Some(d) => {
                if d.vertex_bytes >= draw.vertex_bytes && d.index_bytes >= draw.index_bytes {
                    let kept = ChunkDraw {
                        vertex_bytes: d.vertex_bytes,
                        index_bytes: d.index_bytes,
                        opaque_index_count: draw.opaque_index_count,
                        transparent_index_count: draw.transparent_index_count,
                        partitioned: draw.partitioned,
                    };
                    self.chunks.insert(key, kept);
                    return true;
                }
            },
            None => {},
        }
        self.chunks.insert(key, draw);
        false
    }

    /// Takes a chunk's draw buffers away: it has nothing to draw any more.
    pub fn remove_chunk(&mut self, key: ChunkKey)
        requires
            old(self).well_formed(),
        ensures
            final(self).well_formed(),
            *final(self) == (OpaqueScene { chunks: final(self).chunks, ..*old(self) }),
            forall|k: ChunkKey|
                #[trigger] lookup(final(self).chunks.entries@, k) == (if k == key {
                    None
                } else {
                    lookup(old(self).chunks.entries@, k)
                }),
    {
        self.chunks.remove(key);
    }

    /// The model has no voxel that is drawn: takes every draw buffer away.
    /// `hidden` says that it has voxels, all of them hidden.
    pub fn apply_no_visible_voxels(&mut self, hidden: bool) -> (r: Result<(), EmptyVoxels>)
        ensures
            final(self).well_formed(),
            r == Err::<(), EmptyVoxels>(EmptyVoxels),
            single_cleared(*final(self)),
            chunks_cleared(*final(self)),
            final(self).pending@ == old(self).pending@,
            final(self).chunk_grid_origin == old(self).chunk_grid_origin,
            final(self).route == (if hidden {
                MeshRoute::AllHidden
            } else {
                old(self).route
            }),
    {
        self.clear_draws();
        if hidden {
            self.route = MeshRoute::AllHidden;
        }
        Err(EmptyVoxels)
    }

    /// Shows what the meshing kernel made: `made` holds the vertices and indices
    /// it counted, `None` if it did not run. The result is false where there is
    /// nothing to show, and the mesh has to be made without the kernel.
    pub fn apply_gpu_greedy_pack(&mut self, made: Option<(u32, u32)>) -> (shown: bool)
        requires
            old(self).well_formed(),
        ensures
            final(self).well_formed(),
            shown == (made is Some && (made->0).0 > 0 && (made->0).1 > 0),
            !shown ==> *final(self) == *old(self),
            shown ==> {
                &&& chunks_cleared(*final(self))
                &&& final(self).vertex_bytes == Some(((made->0).0 * OPAQUE_VERTEX_STRIDE) as u64)
                &&& final(self).index_count == (made->0).1
                &&& final(self).opaque_index_split == 0
                &&& final(self).pending@ == old(self).pending@
                &&& final(self).chunk_grid_origin == old(self).chunk_grid_origin
                &&& final(self).route == MeshRoute::GpuGreedy
            },
    {
        match made {
            Some((v_total, i_total)) => {
                if v_total == 0 || i_total == 0 {
                    return false;
                }
                self.clear_draws();
                self.vertex_bytes = Some(v_total as u64 * OPAQUE_VERTEX_STRIDE);
                self.index_count = i_total;
                self.route = MeshRoute::GpuGreedy;
                true
            },
            None => false,
        }
    }

    /// All indices that can be drawn.
    pub fn opaque_index_count(&self) -> (r: u32)
        requires
            self.well_formed(),
            self.chunked ==> index_sum(self.chunks.entries@) <= u32::MAX,
        ensures
            r == (if self.chunked {
                index_sum(self.chunks.entries@)
            } else {
                self.index_count as int
            }),
    {
        if !self.chunked {
            return self.index_count;
        }
        let n: usize = self.chunks.entries.len();
        let mut sum: u32 = 0;
        let mut i: usize = 0;
        while i < n
            invariant
                i <= n,
                n == self.chunks.entries@.len(),
                index_sum(self.chunks.entries@) <= u32::MAX,
                sum == index_sum(self.chunks.entries@.take(i as int)),
            decreases n - i,
        {
            let d = self.chunks.entries[i].draw;
            proof {
                let s = self.chunks.entries@;
                assert(s.take(i as int + 1).drop_last() =~= s.take(i as int));
                lemma_index_sum_grows(s, i as int + 1);
                lemma_index_sum_grows(s, i as int);
            }
            sum = sum + (d.opaque_index_count + d.transparent_index_count);
            i += 1;
        }
        assert(self.chunks.entries@.take(n as int) =~= self.chunks.entries@);
        sum
    }

    /// Vertices that the vertex buffers have room for.
    pub fn opaque_vertex_buffer_vertices(&self) -> (r: u32)
        requires
            self.well_formed(),
            self.chunked ==> vertex_sum(self.chunks.entries@, OPAQUE_VERTEX_STRIDE as int)
                <= u32::MAX,
            !self.chunked && self.vertex_bytes is Some ==> self.vertex_bytes->0
                / OPAQUE_VERTEX_STRIDE <= u32::MAX,
        ensures
            r == (if self.chunked {
                vertex_sum(self.chunks.entries@, OPAQUE_VERTEX_STRIDE as int)
            } else if self.vertex_bytes is Some {
                self.vertex_bytes->0 as int / OPAQUE_VERTEX_STRIDE as int
            } else {
                0
            }),
    {
        if !self.chunked {
            return match self.vertex_bytes {
                Some(b) => (b / OPAQUE_VERTEX_STRIDE) as u32,
                None => 0,
            };
        }
        let n: usize = self.chunks.entries.len();
        let mut sum: u32 = 0;
        let mut i: usize = 0;
        while i < n
            invariant
                i <= n,
                n == self.chunks.entries@.len(),
                vertex_sum(self.chunks.entries@, OPAQUE_VERTEX_STRIDE as int) <= u32::MAX,
                sum == vertex_sum(
                    self.chunks.entries@.take(i as int),
                    OPAQUE_VERTEX_STRIDE as int,
                ),
            decreases n - i,
        {
            let d = self.chunks.entries[i].draw;
            proof {
                let s = self.chunks.entries@;
                assert(s.take(i as int + 1).drop_last() =~= s.take(i as int));
                lemma_vertex_sum_grows(s, OPAQUE_VERTEX_STRIDE as int, i as int + 1);
                lemma_vertex_sum_grows(s, OPAQUE_VERTEX_STRIDE as int, i as int);
            }
            sum = sum + (d.vertex_bytes / OPAQUE_VERTEX_STRIDE) as u32;
            i += 1;
        }
        assert(self.chunks.entries@.take(n as int) =~= self.chunks.entries@);
        sum
    }

    /// What is drawn as opaque.
    pub fn draw_indexed_mesh(&self) -> (r: Vec<MeshDraw>)
        requires
            self.well_formed(),
        ensures
            r@ == draws(*self, DrawPart::Opaque),
    {
        self.draw_part(DrawPart::Opaque)
    }

    /// What is drawn as transparent.
    pub fn draw_indexed_oit_mesh(&self) -> (r: Vec<MeshDraw>)
        requires
            self.well_formed(),
        ensures
            r@ == draws(*self, DrawPart::Transparent),
    {
        self.draw_part(DrawPart::Transparent)
    }

    /// What is drawn into the shadow map: everything.
    pub fn draw_indexed_mesh_all(&self) -> (r: Vec<MeshDraw>)
        requires
            self.well_formed(),
        ensures
            r@ == draws(*self, DrawPart::All),
    {
        self.draw_part(DrawPart::All)
    }

    fn draw_part(&self, part: DrawPart) -> (r: Vec<MeshDraw>)
        requires
            self.well_formed(),
        ensures
            r@ == draws(*self, part),
    {
        let mut r: Vec<MeshDraw> = Vec::new();
        if self.chunked {
            let n: usize = self.chunks.entries.len();
            let mut i: usize = 0;
            while i < n
                invariant
                    i <= n,
                    n == self.chunks.entries@.len(),
                    self.well_formed(),
                    r@ == chunk_draws(self.chunks.entries@.take(i as int), part),
                decreases n - i,
            {
                let e = self.chunks.entries[i];
                let d = e.draw;
                assert(index_total(self.chunks.entries@[i as int].draw) <= u32::MAX);
                let total: u32 = d.opaque_index_count + d.transparent_index_count;
                let (start, end): (u32, u32) = if !d.partitioned {
                    (0, total)
                } else {
                    match part {
                        DrawPart::Opaque => (0, d.opaque_index_count),
                        DrawPart::Transparent => (d.opaque_index_count, total),
                        DrawPart::All => (0, total),
                    }
                };
                proof {
                    let s = self.chunks.entries@;
                    assert(s.take(i as int + 1).drop_last() =~= s.take(i as int));
                }
                if start < end {
                    r.push(MeshDraw { chunk: Some(e.key), start, end });
                }
                i += 1;
            }
            assert(self.chunks.entries@.take(n as int) =~= self.chunks.entries@);
            return r;
        }
        if self.vertex_bytes.is_some() {
            let (start, end): (u32, u32) = match part {
                DrawPart::Opaque => if self.opaque_index_split > 0 {
                    (0, self.opaque_index_split)
                } else {
                    (0, self.index_count)
                },
                DrawPart::Transparent => (self.opaque_index_split, self.index_count),
                DrawPart::All => (0, self.index_count),
            };
            if start < end {
                r.push(MeshDraw { chunk: None, start, end });
            }
        }
        assert(r@ =~= draws(*self, part));
        r
    }
}

/// There are buffers, and they have room.
pub open spec fn has_room(d: Option<ChunkDraw>, vertex_bytes: u64, index_bytes: u64) -> bool {
    d is Some && d->0.vertex_bytes >= vertex_bytes && d->0.index_bytes >= index_bytes
}

/// Draw buffers after new data came: those that were there where it fits them, new ones otherwise.
pub open spec fn refilled(d: Option<ChunkDraw>, new: ChunkDraw) -> ChunkDraw {
    if has_room(d, new.vertex_bytes, new.index_bytes) {
        ChunkDraw { vertex_bytes: d->0.vertex_bytes, index_bytes: d->0.index_bytes, ..new }
    } else {
        new
    }
}

/// Draw buffers made for what the meshing kernel left.
pub open spec fn kernel_draw(v_total: u32, i_total: u32) -> ChunkDraw {
    ChunkDraw {
        vertex_bytes: (v_total * OPAQUE_VERTEX_STRIDE) as u64,
        index_bytes: (i_total * INDEX_BYTES) as u64,
        opaque_index_count: i_total,
        transparent_index_count: 0,
        partitioned: false,
    }
}

/// A part of the mesh that one pass draws.
#[derive(Clone, Copy, Debug, PartialEq, Eq, Structural)]
pub enum DrawPart {
    Opaque,
    Transparent,
    All,
}

/// Indices of a chunk that belong to a part. Where they are not sorted, both
/// parts are everything and the shader tells them apart.
pub open spec fn chunk_range(d: ChunkDraw, part: DrawPart) -> (int, int) {
    if !d.partitioned {
        (0, index_total(d))
    } else {
        match part {
            DrawPart::Opaque => (0, d.opaque_index_count as int),
            DrawPart::Transparent => (d.opaque_index_count as int, index_total(d)),
            DrawPart::All => (0, index_total(d)),
        }
    }
}

/// Indices of the single mesh that belong to a part. Where they are not sorted,
/// both parts are everything and the shader tells them apart.
pub open spec fn single_range(s: OpaqueScene, part: DrawPart) -> (int, int) {
    match part {
        DrawPart::Opaque => if s.opaque_index_split > 0 {
            (0, s.opaque_index_split as int)
        } else {
            (0, s.index_count as int)
        },
        DrawPart::Transparent => (s.opaque_index_split as int, s.index_count as int),
        DrawPart::All => (0, s.index_count as int),
    }
}

/// The draws of a part of some chunks; a chunk without such indices is left out.
pub open spec fn chunk_draws(s: Seq<ChunkEntry>, part: DrawPart) -> Seq<MeshDraw>
    decreases s.len(),
{
    if s.len() == 0 {
        Seq::empty()
    } else {
        let before = chunk_draws(s.drop_last(), part);
        let range = chunk_range(s.last().draw, part);
        if range.0 < range.1 {
            before.push(
                MeshDraw {
                    chunk: Some(s.last().key),
                    start: range.0 as u32,
                    end: range.1 as u32,
                },
            )
        } else {
            before
        }
    }
}

/// The draws of a part of the mesh.
pub open spec fn draws(s: OpaqueScene, part: DrawPart) -> Seq<MeshDraw> {
    if s.chunked {
        chunk_draws(s.chunks.entries@, part)
    } else {
        let range = single_range(s, part);
        if s.vertex_bytes is Some && range.0 < range.1 {
            seq![MeshDraw { chunk: None, start: range.0 as u32, end: range.1 as u32 }]
        } else {
            Seq::empty()
        }
    }
}

/// Of sorted indices the opaque and the transparent pass draw each once:
/// together what the shadow pass draws, and none of them twice.
pub proof fn law_passes_share_the_indices(d: ChunkDraw)
    requires
        d.partitioned,
    ensures
        chunk_range(d, DrawPart::Opaque).0 == chunk_range(d, DrawPart::All).0,
        chunk_range(d, DrawPart::Opaque).1 == chunk_range(d, DrawPart::Transparent).0,
        chunk_range(d, DrawPart::Transparent).1 == chunk_range(d, DrawPart::All).1,
{
}

/// Of indices that are not sorted, such as the meshing kernel leaves, every pass draws
/// all; the shader picks what belongs to the pass.
pub proof fn law_unsorted_indices_are_drawn_by_all(d: ChunkDraw, part: DrawPart)
    requires
        !d.partitioned,
    ensures
        chunk_range(d, part) == (0int, index_total(d)),
{
}

/// The same of a single mesh whose indices are sorted.
pub proof fn law_single_passes_share_the_indices(s: OpaqueScene)
    requires
        0 < s.opaque_index_split <= s.index_count,
    ensures
        single_range(s, DrawPart::Opaque).0 == single_range(s, DrawPart::All).0,
        single_range(s, DrawPart::Opaque).1 == single_range(s, DrawPart::Transparent).0,
        single_range(s, DrawPart::Transparent).1 == single_range(s, DrawPart::All).1,
{
}

/// Draw buffers made for a chunk are drawn to the last of its indices and no further.
pub proof fn law_every_index_is_drawn(m: MeshBuffers, split: u32)
    requires
        m.indices@.len() <= u32::MAX,
        split <= m.indices@.len(),
    ensures
        chunk_range(draw_of(m, split), DrawPart::All) == (0int, m.indices@.len() as int),
{
}

/// Meshing a chunk anew with the mesh it has changes nothing, and needs no new buffers.
pub proof fn law_refill_is_idempotent(d: Option<ChunkDraw>, new: ChunkDraw)
    ensures
        has_room(Some(refilled(d, new)), new.vertex_bytes, new.index_bytes),
        refilled(Some(refilled(d, new)), new) == refilled(d, new),
{
}

} // verus!
