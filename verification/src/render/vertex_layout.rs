//! Layout of the vertex buffers: which lanes of a vertex feed which shader input.

use vstd::prelude::*;

verus! {

/// Bytes of one opaque vertex: position, normal, colour, material kind, occlusion, emission tint.
pub const OPAQUE_VERTEX_STRIDE: u64 = 56;

/// Bytes of one mascot or logo vertex: an opaque vertex and the centre of its voxel.
pub const MASCOT_VERTEX_STRIDE: u64 = 68;

/// Lanes of an opaque vertex.
pub const OPAQUE_LANES: usize = 14;

/// Lanes of a mascot vertex.
pub const MASCOT_LANES: usize = 17;

/// Lanes of a prototype vertex and of a line vertex.
pub const PAIR_LANES: usize = 6;

/// One shader input: `lanes` single precision numbers from byte `offset` on.
#[derive(Clone, Copy, Debug, PartialEq, Eq, Structural)]
pub struct VertexAttribute {
    pub offset: u64,
    pub shader_location: u32,
    pub lanes: u32,
}

/// Layout of one vertex buffer.
#[derive(Debug)]
pub struct VertexBufferLayout {
    pub array_stride: u64,
    /// The buffer steps once per instance and not once per vertex.
    pub per_instance: bool,
    pub attributes: Vec<VertexAttribute>,
}

/// Bytes of the first `n` of some inputs that follow one another.
pub open spec fn bytes_of(lanes: Seq<u32>) -> int
    decreases lanes.len(),
{
    if lanes.len() == 0 {
        0
    } else {
        bytes_of(lanes.drop_last()) + 4 * lanes.last()
    }
}

/// Inputs of the given widths, packed without gaps, numbered from `first` on.
pub open spec fn packed(lanes: Seq<u32>, first: int) -> Seq<VertexAttribute> {
    Seq::new(
        lanes.len(),
        |i: int|
            VertexAttribute {
                offset: bytes_of(lanes.take(i)) as u64,
                shader_location: (first + i) as u32,
                lanes: lanes[i],
            },
    )
}

/// Widths of the inputs of an opaque vertex.
pub open spec fn opaque_lanes() -> Seq<u32> {
    seq![3, 3, 3, 1, 1, 3]
}

/// Widths of the inputs of a mascot vertex.
pub open spec fn mascot_lanes() -> Seq<u32> {
    seq![3, 3, 3, 1, 1, 3, 3]
}

/// Widths of the inputs of a prototype vertex, and of a line vertex.
pub open spec fn pair_lanes() -> Seq<u32> {
    seq![3, 3]
}

/// Widths of the inputs of a preview instance.
pub open spec fn instance_lanes() -> Seq<u32> {
    seq![4, 4, 4, 4, 3, 1]
}

/// A layout holds exactly the given inputs, packed, and nothing after them.
pub open spec fn lays_out(l: VertexBufferLayout, lanes: Seq<u32>, first: int, per_instance: bool) -> bool {
    &&& l.attributes@ == packed(lanes, first)
    &&& l.array_stride == bytes_of(lanes)
    &&& l.per_instance == per_instance
}

proof fn lemma_bytes(lanes: Seq<u32>)
    ensures
        lanes.len() >= 1 ==> bytes_of(lanes.take(1)) == 4 * lanes[0],
        lanes.len() >= 2 ==> bytes_of(lanes.take(2)) == bytes_of(lanes.take(1)) + 4 * lanes[1],
        lanes.len() >= 3 ==> bytes_of(lanes.take(3)) == bytes_of(lanes.take(2)) + 4 * lanes[2],
        lanes.len() >= 4 ==> bytes_of(lanes.take(4)) == bytes_of(lanes.take(3)) + 4 * lanes[3],
        lanes.len() >= 5 ==> bytes_of(lanes.take(5)) == bytes_of(lanes.take(4)) + 4 * lanes[4],
        lanes.len() >= 6 ==> bytes_of(lanes.take(6)) == bytes_of(lanes.take(5)) + 4 * lanes[5],
        lanes.len() >= 7 ==> bytes_of(lanes.take(7)) == bytes_of(lanes.take(6)) + 4 * lanes[6],
        bytes_of(lanes.take(0)) == 0,
        lanes.take(lanes.len() as int) == lanes,
{
    assert(lanes.take(lanes.len() as int) =~= lanes);
    if lanes.len() >= 1 {
        assert(lanes.take(1).drop_last() =~= lanes.take(0));
        assert(bytes_of(lanes.take(0)) == 0);
    }
    if lanes.len() >= 2 {
        assert(lanes.take(2).drop_last() =~= lanes.take(1));
    }
    if lanes.len() >= 3 {
        assert(lanes.take(3).drop_last() =~= lanes.take(2));
    }
    if lanes.len() >= 4 {
        assert(lanes.take(4).drop_last() =~= lanes.take(3));
    }
    if lanes.len() >= 5 {
        assert(lanes.take(5).drop_last() =~= lanes.take(4));
    }
    if lanes.len() >= 6 {
        assert(lanes.take(6).drop_last() =~= lanes.take(5));
    }
    if lanes.len() >= 7 {
        assert(lanes.take(7).drop_last() =~= lanes.take(6));
    }
}

/// The inputs of a packed layout do not overlap and leave no gap: each begins
/// where the one before it ends.
pub proof fn law_packed_without_gaps(lanes: Seq<u32>, first: int, i: int)
    requires
        0 <= i,
        i + 1 < lanes.len(),
        bytes_of(lanes.take(i + 1)) <= u64::MAX,
    ensures
        packed(lanes, first)[0].offset == 0,
        packed(lanes, first)[i + 1].offset == packed(lanes, first)[i].offset + 4 * packed(
            lanes,
            first,
        )[i].lanes,
{
    assert(lanes.take(i + 1).drop_last() =~= lanes.take(i));
    assert(bytes_of(lanes.take(0)) == 0);
    lemma_bytes_count(lanes.take(i));
}

proof fn lemma_bytes_count(lanes: Seq<u32>)
    ensures
        bytes_of(lanes) >= 0,
    decreases lanes.len(),
{
    if lanes.len() > 0 {
        lemma_bytes_count(lanes.drop_last());
    }
}

/// The strides are those of the lanes that the vertices are made of.
pub proof fn law_strides()
    ensures
        OPAQUE_VERTEX_STRIDE == bytes_of(opaque_lanes()) == 4 * OPAQUE_LANES,
        MASCOT_VERTEX_STRIDE == bytes_of(mascot_lanes()) == 4 * MASCOT_LANES,
        bytes_of(pair_lanes()) == 4 * PAIR_LANES,
{
    lemma_bytes(opaque_lanes());
    lemma_bytes(mascot_lanes());
    lemma_bytes(pair_lanes());
}

fn input(offset: u64, shader_location: u32, lanes: u32) -> (r: VertexAttribute)
    ensures
        r == (VertexAttribute { offset, shader_location, lanes }),
{
    VertexAttribute { offset, shader_location, lanes }
}

/// Layout of an opaque vertex.
pub fn vertex_layout() -> (r: VertexBufferLayout)
    ensures
        lays_out(r, opaque_lanes(), 0, false),
{
    proof {
        lemma_bytes(opaque_lanes());
    }
    let r = VertexBufferLayout {
        array_stride: OPAQUE_VERTEX_STRIDE,
        per_instance: false,
        attributes: vec![
            input(0, 0, 3),
            input(12, 1, 3),
            input(24, 2, 3),
            input(36, 3, 1),
            input(40, 4, 1),
            input(44, 5, 3),
        ],
    };
    assert(r.attributes@ =~= packed(opaque_lanes(), 0));
    r
}

/// Layout of a mascot or logo vertex.
pub fn mascot_vertex_layout() -> (r: VertexBufferLayout)
    ensures
        lays_out(r, mascot_lanes(), 0, false),
{
    proof {
        lemma_bytes(mascot_lanes());
    }
    let r = VertexBufferLayout {
        array_stride: MASCOT_VERTEX_STRIDE,
        per_instance: false,
        attributes: vec![
            input(0, 0, 3),
            input(12, 1, 3),
            input(24, 2, 3),
            input(36, 3, 1),
            input(40, 4, 1),
            input(44, 5, 3),
            input(56, 6, 3),
        ],
    };
    assert(r.attributes@ =~= packed(mascot_lanes(), 0));
    r
}

/// Layout of a vertex of the cube that instanced previews repeat.
pub fn preview_proto_vertex_layout() -> (r: VertexBufferLayout)
    ensures
        lays_out(r, pair_lanes(), 0, false),
{
    proof {
        lemma_bytes(pair_lanes());
    }
    let r = VertexBufferLayout {
        array_stride: 24,
        per_instance: false,
        attributes: vec![input(0, 0, 3), input(12, 1, 3)],
    };
    assert(r.attributes@ =~= packed(pair_lanes(), 0));
    r
}

/// Layout of one preview instance: model matrix, colour, material kind. Its
/// inputs are numbered after those of the prototype vertex.
pub fn preview_instance_layout() -> (r: VertexBufferLayout)
    ensures
        lays_out(r, instance_lanes(), 2, true),
{
    proof {
        lemma_bytes(instance_lanes());
    }
    let r = VertexBufferLayout {
        array_stride: 80,
        per_instance: true,
        attributes: vec![
            input(0, 2, 4),
            input(16, 3, 4),
            input(32, 4, 4),
            input(48, 5, 4),
            input(64, 6, 3),
            input(76, 7, 1),
        ],
    };
    assert(r.attributes@ =~= packed(instance_lanes(), 2));
    r
}

/// Layout of a line vertex: position and colour.
pub fn vertex_layout_collab_lines() -> (r: VertexBufferLayout)
    ensures
        lays_out(r, pair_lanes(), 0, false),
{
    proof {
        lemma_bytes(pair_lanes());
    }
    let r = VertexBufferLayout {
        array_stride: 24,
        per_instance: false,
        attributes: vec![input(0, 0, 3), input(12, 1, 3)],
    };
    assert(r.attributes@ =~= packed(pair_lanes(), 0));
    r
}

} // verus!
