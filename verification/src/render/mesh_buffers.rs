//! Meshes as flat lists of lanes, and the interleaved vertex data made of them.
//!
//! A lane is the bit pattern of one single precision number: it is moved here,
//! never computed with.

use vstd::prelude::*;

use crate::render::vertex_layout::{MASCOT_LANES, OPAQUE_LANES, PAIR_LANES};

verus! {

/// Bit pattern of one.
pub const LANE_ONE: u32 = 0x3f80_0000;

/// A triangle mesh. Positions, normals, colours and emission tints take three
/// lanes per vertex, material kind and occlusion one.
#[derive(Debug)]
pub struct MeshBuffers {
    pub positions: Vec<u32>,
    pub normals: Vec<u32>,
    pub colors: Vec<u32>,
    pub mat_kind: Vec<u32>,
    pub ao: Vec<u32>,
    pub emission_tint: Vec<u32>,
    pub indices: Vec<u32>,
}

/// The small mesh that instanced previews repeat.
#[derive(Debug)]
pub struct PreviewPrototype {
    pub positions: Vec<u32>,
    pub normals: Vec<u32>,
    pub indices: Vec<u32>,
}

impl MeshBuffers {
    /// Number of vertices.
    pub open spec fn vertices(&self) -> int {
        self.positions@.len() as int / 3
    }

    /// Normals, colours and material kinds reach as far as the positions do.
    pub open spec fn complete(&self) -> bool {
        &&& self.normals@.len() >= 3 * self.vertices()
        &&& self.colors@.len() >= 3 * self.vertices()
        &&& self.mat_kind@.len() >= self.vertices()
    }

    /// A mesh without vertices.
    pub fn empty() -> (r: MeshBuffers)
        ensures
            r.positions@.len() == 0,
            r.normals@.len() == 0,
            r.colors@.len() == 0,
            r.mat_kind@.len() == 0,
            r.ao@.len() == 0,
            r.emission_tint@.len() == 0,
            r.indices@.len() == 0,
    {
        MeshBuffers {
            positions: Vec::new(),
            normals: Vec::new(),
            colors: Vec::new(),
            mat_kind: Vec::new(),
            ao: Vec::new(),
            emission_tint: Vec::new(),
            indices: Vec::new(),
        }
    }

    /// Number of vertices.
    pub fn vertex_count(&self) -> (r: usize)
        ensures
            r == self.vertices(),
    {
        self.positions.len() / 3
    }
}

/// A lane, or `other` where the list is too short.
pub open spec fn lane_or(s: Seq<u32>, i: int, other: u32) -> u32 {
    if 0 <= i < s.len() {
        s[i]
    } else {
        other
    }
}

/// Lane `k` of vertex `i` in the opaque layout. A missing occlusion is one, a
/// missing emission tint is zero.
pub open spec fn opaque_lane(m: MeshBuffers, i: int, k: int) -> u32 {
    if k < 3 {
        m.positions@[3 * i + k]
    } else if k < 6 {
        m.normals@[3 * i + k - 3]
    } else if k < 9 {
        m.colors@[3 * i + k - 6]
    } else if k == 9 {
        m.mat_kind@[i]
    } else if k == 10 {
        lane_or(m.ao@, i, LANE_ONE)
    } else {
        lane_or(m.emission_tint@, 3 * i + k - 11, 0)
    }
}

/// Lane `k` of vertex `i` in the mascot layout, given the voxel centre of each
/// group of four vertices. A vertex after the last whole group has centre zero.
pub open spec fn mascot_lane(m: MeshBuffers, centers: Seq<u32>, i: int, k: int) -> u32 {
    if k < OPAQUE_LANES {
        opaque_lane(m, i, k)
    } else if i < 4 * (m.vertices() / 4) {
        centers[3 * (i / 4) + k - OPAQUE_LANES]
    } else {
        0
    }
}

/// Lane `k` of vertex `i` of a prototype.
pub open spec fn prototype_lane(p: PreviewPrototype, i: int, k: int) -> u32 {
    if k < 3 {
        p.positions@[3 * i + k]
    } else {
        p.normals@[3 * i + k - 3]
    }
}

/// Vertex after vertex, `width` lanes each.
pub open spec fn interleaved(out: Seq<u32>, n: int, width: int, lane: spec_fn(int, int) -> u32) -> bool {
    &&& out.len() == n * width
    &&& forall|i: int, k: int|
        #![trigger lane(i, k)]
        0 <= i < n && 0 <= k < width ==> out[i * width + k] == lane(i, k)
}

/// One more vertex of the right lanes continues interleaved data.
proof fn lemma_next_vertex(
    before: Seq<u32>,
    added: Seq<u32>,
    n: int,
    width: int,
    lane: spec_fn(int, int) -> u32,
)
    requires
        interleaved(before, n, width, lane),
        added.len() == width,
        width > 0,
        n >= 0,
        forall|k: int| #![trigger added[k]] 0 <= k < width ==> added[k] == lane(n, k),
    ensures
        interleaved(before + added, n + 1, width, lane),
{
    let out = before + added;
    assert((n + 1) * width == n * width + width) by (nonlinear_arith);
    assert forall|i: int, k: int| #![trigger lane(i, k)] 0 <= i < n + 1 && 0 <= k < width implies out[i
        * width + k] == lane(i, k) by {
        if i < n {
            assert(i * width + k < n * width) by (nonlinear_arith)
                requires
                    i < n,
                    k < width,
                    width > 0,
            ;
            assert(i * width >= 0) by (nonlinear_arith)
                requires
                    i >= 0,
                    width > 0,
            ;
        } else {
            assert(i == n);
            assert(out[n * width + k] == added[k]);
        }
    }
}

proof fn lemma_start(width: int, lane: spec_fn(int, int) -> u32)
    ensures
        interleaved(Seq::<u32>::empty(), 0, width, lane),
{
    assert(0 * width == 0) by (nonlinear_arith);
}

fn get_or(v: &Vec<u32>, i: usize, other: u32) -> (r: u32)
    ensures
        r == lane_or(v@, i as int, other),
{
    if i < v.len() {
        v[i]
    } else {
        other
    }
}

/// Appends the opaque lanes of vertex `i`.
fn push_opaque(out: &mut Vec<u32>, m: &MeshBuffers, i: usize)
    requires
        m.complete(),
        i < m.vertices(),
    ensures
        final(out)@ == old(out)@ + Seq::new(OPAQUE_LANES as nat, |k: int| opaque_lane(*m, i as int, k)),
{
    let n: usize = m.positions.len();
    assert(3 * i + 2 < n);
    let at: usize = 3 * i;
    out.push(m.positions[at]);
    out.push(m.positions[at + 1]);
    out.push(m.positions[at + 2]);
    out.push(m.normals[at]);
    out.push(m.normals[at + 1]);
    out.push(m.normals[at + 2]);
    out.push(m.colors[at]);
    out.push(m.colors[at + 1]);
    out.push(m.colors[at + 2]);
    out.push(m.mat_kind[i]);
    out.push(get_or(&m.ao, i, LANE_ONE));
    out.push(get_or(&m.emission_tint, at, 0));
    out.push(get_or(&m.emission_tint, at + 1, 0));
    out.push(get_or(&m.emission_tint, at + 2, 0));
    assert(out@ =~= old(out)@ + Seq::new(
        OPAQUE_LANES as nat,
        |k: int| opaque_lane(*m, i as int, k),
    ));
}

/// Interleaved vertex data of a mesh in the opaque layout.
pub fn interleaved_from_mesh(mesh: &MeshBuffers) -> (out: Vec<u32>)
    requires
        mesh.complete(),
    ensures
        interleaved(
            out@,
            mesh.vertices(),
            OPAQUE_LANES as int,
            (|i: int, k: int| opaque_lane(*mesh, i, k)),
        ),
{
    let ghost lane = |i: int, k: int| opaque_lane(*mesh, i, k);
    let n: usize = mesh.vertex_count();
    let mut out: Vec<u32> = Vec::new();
    let mut i: usize = 0;
    proof {
        lemma_start(OPAQUE_LANES as int, lane);
    }
    while i < n
        invariant
            i <= n,
            n == mesh.vertices(),
            mesh.complete(),
            lane == (|i: int, k: int| opaque_lane(*mesh, i, k)),
            interleaved(out@, i as int, OPAQUE_LANES as int, lane),
        decreases n - i,
    {
        let ghost before = out@;
        push_opaque(&mut out, mesh, i);
        proof {
            let added = Seq::new(OPAQUE_LANES as nat, |k: int| opaque_lane(*mesh, i as int, k));
            lemma_next_vertex(before, added, i as int, OPAQUE_LANES as int, lane);
        }
        i += 1;
    }
    out
}

/// Interleaved vertex data of a prototype: position and normal.
pub fn interleaved_from_prototype(proto: &PreviewPrototype) -> (out: Vec<u32>)
    requires
        proto.normals@.len() >= 3 * (proto.positions@.len() as int / 3),
    ensures
        interleaved(
            out@,
            proto.positions@.len() as int / 3,
            PAIR_LANES as int,
            (|i: int, k: int| prototype_lane(*proto, i, k)),
        ),
{
    let ghost lane = |i: int, k: int| prototype_lane(*proto, i, k);
    let n: usize = proto.positions.len() / 3;
    let mut out: Vec<u32> = Vec::new();
    let mut i: usize = 0;
    proof {
        lemma_start(PAIR_LANES as int, lane);
    }
    while i < n
        invariant
            i <= n,
            n == proto.positions@.len() as int / 3,
            proto.normals@.len() >= 3 * (proto.positions@.len() as int / 3),
            lane == (|i: int, k: int| prototype_lane(*proto, i, k)),
            interleaved(out@, i as int, PAIR_LANES as int, lane),
        decreases n - i,
    {
        let ghost before = out@;
        let len: usize = proto.positions.len();
        assert(3 * i + 2 < len);
        let at: usize = 3 * i;
        out.push(proto.positions[at]);
        out.push(proto.positions[at + 1]);
        out.push(proto.positions[at + 2]);
        out.push(proto.normals[at]);
        out.push(proto.normals[at + 1]);
        out.push(proto.normals[at + 2]);
        proof {
            let added = Seq::new(PAIR_LANES as nat, |k: int| prototype_lane(*proto, i as int, k));
            assert(out@ =~= before + added);
            lemma_next_vertex(before, added, i as int, PAIR_LANES as int, lane);
        }
        i += 1;
    }
    out
}

/// Interleaved vertex data of a mesh in the mascot layout. `centers` holds
/// three lanes for each whole group of four vertices.
pub fn interleaved_for_mascot(mesh: &MeshBuffers, centers: &Vec<u32>) -> (out: Vec<u32>)
    requires
        mesh.complete(),
        centers@.len() >= 3 * (mesh.vertices() / 4),
    ensures
        interleaved(
            out@,
            mesh.vertices(),
            MASCOT_LANES as int,
            (|i: int, k: int| mascot_lane(*mesh, centers@, i, k)),
        ),
{
    let ghost lane = |i: int, k: int| mascot_lane(*mesh, centers@, i, k);
    let n: usize = mesh.vertex_count();
    let grouped: usize = 4 * (n / 4);
    let mut out: Vec<u32> = Vec::new();
    let mut i: usize = 0;
    proof {
        lemma_start(MASCOT_LANES as int, lane);
    }
    while i < n
        invariant
            i <= n,
            n == mesh.vertices(),
            grouped == 4 * (n as int / 4),
            mesh.complete(),
            centers@.len() >= 3 * (mesh.vertices() / 4),
            lane == (|i: int, k: int| mascot_lane(*mesh, centers@, i, k)),
            interleaved(out@, i as int, MASCOT_LANES as int, lane),
        decreases n - i,
    {
        let ghost before = out@;
        push_opaque(&mut out, mesh, i);
        let ghost opaque = Seq::new(
            OPAQUE_LANES as nat,
            |k: int| opaque_lane(*mesh, i as int, k),
        );
        let c: (u32, u32, u32) = if i < grouped {
            let len: usize = centers.len();
            assert(3 * (i as int / 4) + 2 < len);
            let at: usize = 3 * (i / 4);
            (centers[at], centers[at + 1], centers[at + 2])
        } else {
            (0, 0, 0)
        };
        out.push(c.0);
        out.push(c.1);
        out.push(c.2);
        proof {
            let added = Seq::new(
                MASCOT_LANES as nat,
                |k: int| mascot_lane(*mesh, centers@, i as int, k),
            );
            assert(added =~= opaque + seq![c.0, c.1, c.2]);
            assert(out@ =~= before + added);
            lemma_next_vertex(before, added, i as int, MASCOT_LANES as int, lane);
        }
        i += 1;
    }
    out
}

/// The bytes of some lanes, lane after lane, the lowest byte of each first.
pub open spec fn low_byte_first(bytes: Seq<u8>, lanes: Seq<u32>) -> bool {
    &&& bytes.len() == 4 * lanes.len()
    &&& forall|i: int|
        0 <= i < lanes.len() ==> #[trigger] lanes[i] == bytes[4 * i] + 0x100 * bytes[4 * i + 1]
            + 0x1_0000 * bytes[4 * i + 2] + 0x100_0000 * bytes[4 * i + 3]
}

/// The bytes of some lanes, lane after lane, the highest byte of each first.
pub open spec fn high_byte_first(bytes: Seq<u8>, lanes: Seq<u32>) -> bool {
    &&& bytes.len() == 4 * lanes.len()
    &&& forall|i: int|
        0 <= i < lanes.len() ==> #[trigger] lanes[i] == bytes[4 * i + 3] + 0x100 * bytes[4 * i + 2]
            + 0x1_0000 * bytes[4 * i + 1] + 0x100_0000 * bytes[4 * i]
}

/// The bytes of some lanes as the machine keeps them.
pub open spec fn in_memory(bytes: Seq<u8>, lanes: Seq<u32>) -> bool {
    low_byte_first(bytes, lanes) || high_byte_first(bytes, lanes)
}

/// `bytemuck::cast_slice` from 32 bit lanes to bytes: the four bytes of each
/// lane, lane after lane. Which byte of a lane comes first is the machine's
/// choice, the same for every lane.
#[verifier::external_body]
fn lane_bytes(lanes: &[u32]) -> (r: Vec<u8>)
    ensures
        in_memory(r@, lanes@),
{
    bytemuck::cast_slice::<u32, u8>(lanes).to_vec()
}

/// Contents of the vertex buffer of a mesh in the opaque layout.
pub fn mesh_vertex_bytes(mesh: &MeshBuffers) -> (r: Vec<u8>)
    requires
        mesh.complete(),
    ensures
        exists|lanes: Seq<u32>|
            #[trigger] in_memory(r@, lanes) && interleaved(
                lanes,
                mesh.vertices(),
                OPAQUE_LANES as int,
                (|i: int, k: int| opaque_lane(*mesh, i, k)),
            ),
{
    let lanes = interleaved_from_mesh(mesh);
    let r = lane_bytes(lanes.as_slice());
    assert(in_memory(r@, lanes@));
    r
}

/// Contents of the vertex buffer of a prototype.
pub fn prototype_vertex_bytes(proto: &PreviewPrototype) -> (r: Vec<u8>)
    requires
        proto.normals@.len() >= 3 * (proto.positions@.len() as int / 3),
    ensures
        exists|lanes: Seq<u32>|
            #[trigger] in_memory(r@, lanes) && interleaved(
                lanes,
                proto.positions@.len() as int / 3,
                PAIR_LANES as int,
                (|i: int, k: int| prototype_lane(*proto, i, k)),
            ),
{
    let lanes = interleaved_from_prototype(proto);
    let r = lane_bytes(lanes.as_slice());
    assert(in_memory(r@, lanes@));
    r
}

/// Contents of the vertex buffer of a mascot or of the logo.
pub fn mascot_vertex_bytes(mesh: &MeshBuffers, centers: &Vec<u32>) -> (r: Vec<u8>)
    requires
        mesh.complete(),
        centers@.len() >= 3 * (mesh.vertices() / 4),
    ensures
        exists|lanes: Seq<u32>|
            #[trigger] in_memory(r@, lanes) && interleaved(
                lanes,
                mesh.vertices(),
                MASCOT_LANES as int,
                (|i: int, k: int| mascot_lane(*mesh, centers@, i, k)),
            ),
{
    let lanes = interleaved_for_mascot(mesh, centers);
    let r = lane_bytes(lanes.as_slice());
    assert(in_memory(r@, lanes@));
    r
}

/// Contents of an index buffer, or of a buffer of line vertices.
pub fn buffer_bytes(lanes: &[u32]) -> (r: Vec<u8>)
    ensures
        in_memory(r@, lanes@),
{
    lane_bytes(lanes)
}

} // verus!
