//! Meshing on the graphics device: how large its buffers must be, whether the
//! device can take the work, and what its counters say afterwards.

use vstd::prelude::*;

use crate::render::textures::at_least_one;
use crate::render::vertex_layout::OPAQUE_VERTEX_STRIDE;
use crate::voxelle::VoxelCoord;

verus! {

/// Version of the meshing kernel's bind group layout.
pub const MESH_GREEDY_PIPELINE_LAYOUT_VERSION: u32 = 2;

/// Bytes of one index.
pub const INDEX_BYTES: u64 = 4;

/// Extent of one slice of the model, in cells.
#[derive(Clone, Copy, Debug, PartialEq, Eq, Structural)]
pub struct SliceSize {
    pub width: u32,
    pub height: u32,
}

/// What the device can hold.
#[derive(Clone, Copy, Debug, PartialEq, Eq, Structural)]
pub struct DeviceLimits {
    pub max_buffer_size: u64,
    pub max_storage_buffer_binding_size: u32,
    pub max_compute_workgroups_per_dimension: u32,
}

/// Why meshing on the device is given up.
#[derive(Clone, Copy, Debug, PartialEq, Eq, Structural)]
pub enum GreedyError {
    EmptyHeaders,
    OverDeviceLimits,
    CounterOverflow,
}

impl GreedyError {
    /// What is said of the error.
    pub open spec fn text(self) -> Seq<char> {
        match self {
            GreedyError::EmptyHeaders => "gpu greedy: empty headers"@,
            GreedyError::OverDeviceLimits => "gpu greedy: over device limits"@,
            GreedyError::CounterOverflow => "gpu greedy: counter overflow"@,
        }
    }

    /// What is said of the error.
    pub fn message(self) -> (r: &'static str)
        ensures
            r@ == self.text(),
    {
        match self {
            GreedyError::EmptyHeaders => "gpu greedy: empty headers",
            GreedyError::OverDeviceLimits => "gpu greedy: over device limits",
            GreedyError::CounterOverflow => "gpu greedy: counter overflow",
        }
    }
}

/// Parameters of the meshing kernel.
#[derive(Clone, Copy, Debug, PartialEq, Eq, Structural)]
pub struct GpuMeshParams {
    pub max_vertices: u32,
    pub max_indices: u32,
    pub slice_count: u32,
    pub brick_ox: i32,
    pub brick_oy: i32,
    pub brick_oz: i32,
    pub brick_dx: u32,
    pub brick_dy: u32,
    pub brick_dz: u32,
}

/// One run of the meshing kernel: one workgroup per slice.
#[derive(Clone, Copy, Debug, PartialEq, Eq, Structural)]
pub struct GreedyPlan {
    pub params: GpuMeshParams,
    pub vertex_bytes: u64,
    pub index_bytes: u64,
}

/// Cells of all slices together.
pub open spec fn total_cells(s: Seq<SliceSize>) -> int
    decreases s.len(),
{
    if s.len() == 0 {
        0
    } else {
        total_cells(s.drop_last()) + s.last().width * s.last().height
    }
}

/// At most the largest 32 bit number.
pub open spec fn capped(n: int) -> int {
    if n > u32::MAX {
        u32::MAX as int
    } else {
        n
    }
}

/// Most vertices that the slices can give: four for each cell.
pub open spec fn most_vertices(s: Seq<SliceSize>) -> int {
    at_least_one(capped(4 * total_cells(s)))
}

/// Most indices that the slices can give: six for each cell.
pub open spec fn most_indices(s: Seq<SliceSize>) -> int {
    at_least_one(capped(6 * total_cells(s)))
}

/// The device can take the slices.
pub open spec fn device_takes(s: Seq<SliceSize>, lim: DeviceLimits) -> bool {
    let vertices = most_vertices(s) * OPAQUE_VERTEX_STRIDE;
    let indices = most_indices(s) * INDEX_BYTES;
    &&& vertices <= lim.max_buffer_size && vertices <= lim.max_storage_buffer_binding_size
    &&& indices <= lim.max_buffer_size && indices <= lim.max_storage_buffer_binding_size
    &&& s.len() <= lim.max_compute_workgroups_per_dimension
}

/// The run that meshes the slices against a voxel brick.
pub open spec fn greedy_plan(
    s: Seq<SliceSize>,
    origin: VoxelCoord,
    dims: (u32, u32, u32),
) -> GreedyPlan {
    GreedyPlan {
        params: GpuMeshParams {
            max_vertices: most_vertices(s) as u32,
            max_indices: most_indices(s) as u32,
            slice_count: s.len() as u32,
            brick_ox: origin.0,
            brick_oy: origin.1,
            brick_oz: origin.2,
            brick_dx: dims.0,
            brick_dy: dims.1,
            brick_dz: dims.2,
        },
        vertex_bytes: (most_vertices(s) * OPAQUE_VERTEX_STRIDE) as u64,
        index_bytes: (most_indices(s) * INDEX_BYTES) as u64,
    }
}

proof fn lemma_total_cells(s: Seq<SliceSize>)
    ensures
        total_cells(s) >= 0,
    decreases s.len(),
{
    if s.len() > 0 {
        lemma_total_cells(s.drop_last());
        let w = s.last().width as int;
        let h = s.last().height as int;
        assert(w * h >= 0) by (nonlinear_arith)
            requires
                w >= 0,
                h >= 0,
        ;
    }
}

/// More slices have at least as many cells.
pub proof fn law_more_slices_need_more(s: Seq<SliceSize>, more: SliceSize)
    ensures
        most_vertices(s) <= most_vertices(s.push(more)),
        most_indices(s) <= most_indices(s.push(more)),
{
    assert(s.push(more).drop_last() =~= s);
    let w = more.width as int;
    let h = more.height as int;
    assert(w * h >= 0) by (nonlinear_arith)
        requires
            w >= 0,
            h >= 0,
    ;
}

/// `sum + factor * w * h`, capped.
fn add_capped(sum: u32, factor: u32, w: u32, h: u32) -> (r: u32)
    requires
        factor == 4 || factor == 6,
    ensures
        r == capped(sum + factor * (w * h)),
{
    let most: u64 = u32::MAX as u64;
    proof {
        let a = w as int;
        let b = h as int;
        assert(0 <= a * b <= 0xffff_ffff * 0xffff_ffff) by (nonlinear_arith)
            requires
                0 <= a <= 0xffff_ffff,
                0 <= b <= 0xffff_ffff,
        ;
    }
    let cells: u64 = w as u64 * h as u64;
    if cells > most {
        return u32::MAX;
    }
    let total: u64 = sum as u64 + factor as u64 * cells;
    if total > most {
        u32::MAX
    } else {
        total as u32
    }
}

/// Sizes up a run of the meshing kernel, or says why the device does not run it.
pub fn plan_greedy_dispatch(
    headers: &[SliceSize],
    lim: &DeviceLimits,
    mesh_brick_origin: VoxelCoord,
    mesh_brick_dims: (u32, u32, u32),
) -> (r: Result<GreedyPlan, GreedyError>)
    ensures
        r == (if headers@.len() == 0 {
            Err(GreedyError::EmptyHeaders)
        } else if !device_takes(headers@, *lim) {
            Err(GreedyError::OverDeviceLimits)
        } else {
            Ok(greedy_plan(headers@, mesh_brick_origin, mesh_brick_dims))
        }),
{
    let n: usize = headers.len();
    if n == 0 {
        return Err(GreedyError::EmptyHeaders);
    }
    let mut acc_v: u32 = 0;
    let mut acc_i: u32 = 0;
    let mut k: usize = 0;
    while k < n
        invariant
            k <= n,
            n == headers@.len(),
            acc_v == capped(4 * total_cells(headers@.take(k as int))),
            acc_i == capped(6 * total_cells(headers@.take(k as int))),
        decreases n - k,
    {
        let h = headers[k];
        proof {
            assert(headers@.take(k as int + 1).drop_last() =~= headers@.take(k as int));
            lemma_total_cells(headers@.take(k as int));
            let c = h.width as int * h.height as int;
            assert(c >= 0) by (nonlinear_arith)
                requires
                    c == h.width as int * h.height as int,
                    h.width as int >= 0,
                    h.height as int >= 0,
            ;
        }
        acc_v = add_capped(acc_v, 4, h.width, h.height);
        acc_i = add_capped(acc_i, 6, h.width, h.height);
        k += 1;
    }
    assert(headers@.take(n as int) =~= headers@);
    let max_vertices: u32 = if acc_v < 1 {
        1
    } else {
        acc_v
    };
    let max_indices: u32 = if acc_i < 1 {
        1
    } else {
        acc_i
    };
    let vertex_bytes: u64 = max_vertices as u64 * OPAQUE_VERTEX_STRIDE;
    let index_bytes: u64 = max_indices as u64 * INDEX_BYTES;
    let max_bind: u64 = lim.max_storage_buffer_binding_size as u64;
    if vertex_bytes > lim.max_buffer_size || index_bytes > lim.max_buffer_size || vertex_bytes
        > max_bind || index_bytes > max_bind || n > lim.max_compute_workgroups_per_dimension as usize {
        return Err(GreedyError::OverDeviceLimits);
    }
    Ok(
        GreedyPlan {
            params: GpuMeshParams {
                max_vertices,
                max_indices,
                slice_count: n as u32,
                brick_ox: mesh_brick_origin.0,
                brick_oy: mesh_brick_origin.1,
                brick_oz: mesh_brick_origin.2,
                brick_dx: mesh_brick_dims.0,
                brick_dy: mesh_brick_dims.1,
                brick_dz: mesh_brick_dims.2,
            },
            vertex_bytes,
            index_bytes,
        },
    )
}

/// Four bytes as a number, lowest byte first.
pub open spec fn little_endian(s: Seq<u8>) -> int {
    s[0] + 0x100 * s[1] + 0x1_0000 * s[2] + 0x100_0000 * s[3]
}

fn read_u32(bytes: &[u8], at: usize) -> (r: u32)
    requires
        at + 4 <= bytes@.len(),
    ensures
        r == little_endian(bytes@.subrange(at as int, at + 4)),
{
    bytes[at] as u32 + 0x100 * (bytes[at + 1] as u32) + 0x1_0000 * (bytes[at + 2] as u32)
        + 0x100_0000 * (bytes[at + 3] as u32)
}

/// Reads the kernel's two counters, vertices before indices, and checks them
/// against the room that it had.
pub fn settle_greedy_dispatch(plan: &GreedyPlan, counters: &[u8]) -> (r: Result<
    (u32, u32),
    GreedyError,
>)
    requires
        counters@.len() >= 8,
    ensures
        ({
            let v = little_endian(counters@.subrange(0, 4));
            let i = little_endian(counters@.subrange(4, 8));
            if v > plan.params.max_vertices || i > plan.params.max_indices {
                r == Err::<(u32, u32), GreedyError>(GreedyError::CounterOverflow)
            } else {
                r is Ok && r->Ok_0.0 == v && r->Ok_0.1 == i
            }
        }),
{
    let v_total: u32 = read_u32(counters, 0);
    let i_total: u32 = read_u32(counters, 4);
    if v_total > plan.params.max_vertices || i_total > plan.params.max_indices {
        return Err(GreedyError::CounterOverflow);
    }
    Ok((v_total, i_total))
}

/// Buffers kept between runs of the kernel. Scratch buffers only ever grow.
#[derive(Clone, Copy, Debug, PartialEq, Eq, Structural)]
pub struct MeshGreedyPool {
    pub counters: bool,
    pub readback: bool,
    /// Bytes of the vertex scratch buffer, once there is one.
    pub vtx_cap: Option<u64>,
    /// Bytes of the index scratch buffer, once there is one.
    pub idx_cap: Option<u64>,
    /// Layout version that the kernel was built for, once it was built.
    pub kernel: Option<u32>,
}

/// A buffer of at least `need` bytes.
pub open spec fn grown(cap: Option<u64>, need: u64) -> Option<u64> {
    if cap is None || cap->0 < need {
        Some(need)
    } else {
        cap
    }
}

impl MeshGreedyPool {
    /// Nothing yet.
    pub fn new() -> (r: MeshGreedyPool)
        ensures
            !r.counters,
            !r.readback,
            r.vtx_cap is None,
            r.idx_cap is None,
            r.kernel is None,
    {
        MeshGreedyPool { counters: false, readback: false, vtx_cap: None, idx_cap: None, kernel: None }
    }

    /// Asks for the counter buffer; the result says whether it is to be made now.
    pub fn ensure_counters(&mut self) -> (made: bool)
        ensures
            made == !old(self).counters,
            *final(self) == (MeshGreedyPool { counters: true, ..*old(self) }),
    {
        let made = !self.counters;
        self.counters = true;
        made
    }

    /// Asks for the readback buffer; the result says whether it is to be made now.
    pub fn ensure_readback(&mut self) -> (made: bool)
        ensures
            made == !old(self).readback,
            *final(self) == (MeshGreedyPool { readback: true, ..*old(self) }),
    {
        let made = !self.readback;
        self.readback = true;
        made
    }

    /// Asks for room for the vertices; the result says whether a buffer is to be made now.
    pub fn ensure_vtx_out(&mut self, need: u64) -> (made: bool)
        ensures
            made == (old(self).vtx_cap is None || old(self).vtx_cap->0 < need),
            *final(self) == (MeshGreedyPool { vtx_cap: grown(old(self).vtx_cap, need), ..*old(self) }),
    {
        let made = match self.vtx_cap {
            None => true,
            Some(cap) => cap < need,
        };
        if made {
            self.vtx_cap = Some(need);
        }
        made
    }

    /// Asks for room for the indices; the result says whether a buffer is to be made now.
    pub fn ensure_idx_out(&mut self, need: u64) -> (made: bool)
        ensures
            made == (old(self).idx_cap is None || old(self).idx_cap->0 < need),
            *final(self) == (MeshGreedyPool { idx_cap: grown(old(self).idx_cap, need), ..*old(self) }),
    {
        let made = match self.idx_cap {
            None => true,
            Some(cap) => cap < need,
        };
        if made {
            self.idx_cap = Some(need);
        }
        made
    }

    /// Asks for the kernel of the present layout version; the result says
    /// whether it is to be built now.
    pub fn ensure_kernel(&mut self) -> (made: bool)
        ensures
            made == (old(self).kernel != Some(MESH_GREEDY_PIPELINE_LAYOUT_VERSION)),
            *final(self) == (MeshGreedyPool {
                kernel: Some(MESH_GREEDY_PIPELINE_LAYOUT_VERSION),
                ..*old(self)
            }),
    {
        let made = match self.kernel {
            None => true,
            Some(version) => version != MESH_GREEDY_PIPELINE_LAYOUT_VERSION,
        };
        self.kernel = Some(MESH_GREEDY_PIPELINE_LAYOUT_VERSION);
        made
    }
}

/// What to do before a run of the kernel.
#[derive(Clone, Copy, Debug, PartialEq, Eq, Structural)]
pub struct GreedyStart {
    pub plan: GreedyPlan,
    pub make_counters: bool,
    pub make_vtx_out: bool,
    pub make_idx_out: bool,
    pub make_readback: bool,
    pub make_kernel: bool,
}

/// The pool once it is ready for a run.
pub open spec fn ready(pool: MeshGreedyPool, plan: GreedyPlan) -> MeshGreedyPool {
    MeshGreedyPool {
        counters: true,
        readback: true,
        vtx_cap: grown(pool.vtx_cap, plan.vertex_bytes),
        idx_cap: grown(pool.idx_cap, plan.index_bytes),
        kernel: Some(MESH_GREEDY_PIPELINE_LAYOUT_VERSION),
    }
}

/// Begins a run of the meshing kernel on some slices: sizes it up and gets the
/// pool ready, or says why the device does not run it and leaves the pool alone.
pub fn mesh_greedy_dispatch(
    pool: &mut MeshGreedyPool,
    headers: &[SliceSize],
    lim: &DeviceLimits,
    mesh_brick_origin: VoxelCoord,
    mesh_brick_dims: (u32, u32, u32),
) -> (r: Result<GreedyStart, GreedyError>)
    ensures
        headers@.len() == 0 ==> r == Err::<GreedyStart, GreedyError>(GreedyError::EmptyHeaders),
        headers@.len() > 0 && !device_takes(headers@, *lim) ==> r == Err::<GreedyStart, GreedyError>(
            GreedyError::OverDeviceLimits,
        ),
        r is Err ==> *final(pool) == *old(pool),
        headers@.len() > 0 && device_takes(headers@, *lim) ==> {
            let plan = greedy_plan(headers@, mesh_brick_origin, mesh_brick_dims);
            let was = *old(pool);
            &&& *final(pool) == ready(was, plan)
            &&& r == Ok::<GreedyStart, GreedyError>(
                GreedyStart {
                    plan,
                    make_counters: !was.counters,
                    make_vtx_out: was.vtx_cap is None || was.vtx_cap->0 < plan.vertex_bytes,
                    make_idx_out: was.idx_cap is None || was.idx_cap->0 < plan.index_bytes,
                    make_readback: !was.readback,
                    make_kernel: was.kernel != Some(MESH_GREEDY_PIPELINE_LAYOUT_VERSION),
                },
            )
        },
{
    let plan = match plan_greedy_dispatch(headers, lim, mesh_brick_origin, mesh_brick_dims) {
        Ok(plan) => plan,
        Err(e) => {
            return Err(e);
        },
    };
    let make_counters = pool.ensure_counters();
    let make_vtx_out = pool.ensure_vtx_out(plan.vertex_bytes);
    let make_idx_out = pool.ensure_idx_out(plan.index_bytes);
    let make_readback = pool.ensure_readback();
    let make_kernel = pool.ensure_kernel();
    Ok(
        GreedyStart {
            plan,
            make_counters,
            make_vtx_out,
            make_idx_out,
            make_readback,
            make_kernel,
        },
    )
}

/// A scratch buffer never shrinks and always has the room that was asked for.
pub proof fn law_scratch_only_grows(cap: Option<u64>, need: u64)
    ensures
        grown(cap, need) is Some,
        grown(cap, need)->0 >= need,
        cap is Some ==> grown(cap, need)->0 >= cap->0,
        grown(grown(cap, need), need) == grown(cap, need),
{
}

/// What a run that stayed within its plan wrote fits the scratch buffers made for the plan.
pub proof fn law_output_fits_scratch(
    s: Seq<SliceSize>,
    lim: DeviceLimits,
    origin: VoxelCoord,
    dims: (u32, u32, u32),
    cap: Option<u64>,
    vertices: u32,
)
    requires
        device_takes(s, lim),
        vertices <= greedy_plan(s, origin, dims).params.max_vertices,
    ensures
        vertices * OPAQUE_VERTEX_STRIDE <= grown(cap, greedy_plan(s, origin, dims).vertex_bytes)->0,
{
}

} // verus!
