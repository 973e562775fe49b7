//! Extracted surfaces: vertices, the crossings each vertex is computed from, and
//! the triangles between them.

use vstd::prelude::*;

use crate::smooth_mesh::crossing::EdgeCrossing;
use crate::voxelle::{MaterialId, VoxelCoord};

verus! {

/// A vertex of a surface. `place` tells the vertices of one surface apart: the
/// rounded position of a marching cubes vertex, the cell of a dual contouring one.
#[derive(Clone, Copy, Debug, PartialEq, Eq)]
pub struct SurfaceVertex {
    pub place: VoxelCoord,
    pub material: MaterialId,
}

/// A surface: `owners[i]` is the vertex that `samples[i]` contributes to, and
/// `indices` lists the vertices of the triangles, three per triangle.
#[derive(Debug)]
pub struct SurfaceMesh {
    pub vertices: Vec<SurfaceVertex>,
    pub samples: Vec<EdgeCrossing>,
    pub owners: Vec<usize>,
    pub indices: Vec<usize>,
}

/// What a surface is made of.
#[verifier::ext_equal]
pub struct Surface {
    pub vertices: Seq<SurfaceVertex>,
    pub samples: Seq<EdgeCrossing>,
    pub owners: Seq<int>,
    pub indices: Seq<int>,
}

/// A list of positions as numbers.
pub open spec fn as_ints(s: Seq<usize>) -> Seq<int> {
    Seq::new(s.len(), |i: int| s[i] as int)
}

impl View for SurfaceMesh {
    type V = Surface;

    open spec fn view(&self) -> Surface {
        Surface {
            vertices: self.vertices@,
            samples: self.samples@,
            owners: as_ints(self.owners@),
            indices: as_ints(self.indices@),
        }
    }
}

impl Surface {
    /// Every sample has an owner, and owners and triangles name vertices of the surface.
    pub open spec fn well_formed(&self) -> bool {
        &&& self.owners.len() == self.samples.len()
        &&& forall|i: int|
            0 <= i < self.owners.len() ==> 0 <= #[trigger] self.owners[i] < self.vertices.len()
        &&& forall|i: int|
            0 <= i < self.indices.len() ==> 0 <= #[trigger] self.indices[i] < self.vertices.len()
    }
}

/// The surface with nothing in it.
pub open spec fn empty_surface() -> Surface {
    Surface { vertices: seq![], samples: seq![], owners: seq![], indices: seq![] }
}

/// Every number of a list raised by `by`.
pub open spec fn raised(s: Seq<int>, by: int) -> Seq<int> {
    Seq::new(s.len(), |i: int| s[i] + by)
}

/// Two surfaces as one: the vertices of the second follow those of the first.
pub open spec fn joined(a: Surface, b: Surface) -> Surface {
    Surface {
        vertices: a.vertices + b.vertices,
        samples: a.samples + b.samples,
        owners: a.owners + raised(b.owners, a.vertices.len() as int),
        indices: a.indices + raised(b.indices, a.vertices.len() as int),
    }
}

/// A list of surfaces as one, in order.
pub open spec fn merged(parts: Seq<Surface>) -> Surface
    decreases parts.len(),
{
    if parts.len() == 0 {
        empty_surface()
    } else {
        joined(merged(parts.drop_last()), parts.last())
    }
}

/// Merging well-formed surfaces gives a well-formed one.
pub proof fn law_merged_well_formed(parts: Seq<Surface>)
    requires
        forall|i: int| 0 <= i < parts.len() ==> (#[trigger] parts[i]).well_formed(),
    ensures
        merged(parts).well_formed(),
    decreases parts.len(),
{
    if parts.len() > 0 {
        law_merged_well_formed(parts.drop_last());
        let a = merged(parts.drop_last());
        let b = parts.last();
        let m = joined(a, b);
        assert(b.well_formed());
        assert forall|i: int| 0 <= i < m.owners.len() implies 0 <= #[trigger] m.owners[i]
            < m.vertices.len() by {
            if i < a.owners.len() {
                assert(m.owners[i] == a.owners[i]);
            } else {
                assert(m.owners[i] == b.owners[i - a.owners.len()] + a.vertices.len());
            }
        }
        assert forall|i: int| 0 <= i < m.indices.len() implies 0 <= #[trigger] m.indices[i]
            < m.vertices.len() by {
            if i < a.indices.len() {
                assert(m.indices[i] == a.indices[i]);
            } else {
                assert(m.indices[i] == b.indices[i - a.indices.len()] + a.vertices.len());
            }
        }
    }
}

/// Merging keeps every vertex, sample and triangle corner: the counts add up.
pub proof fn law_merged_counts(parts: Seq<Surface>, last: Surface)
    ensures
        merged(parts.push(last)).vertices.len() == merged(parts).vertices.len()
            + last.vertices.len(),
        merged(parts.push(last)).samples.len() == merged(parts).samples.len()
            + last.samples.len(),
        merged(parts.push(last)).indices.len() == merged(parts).indices.len()
            + last.indices.len(),
{
    assert(parts.push(last).drop_last() =~= parts);
}

impl SurfaceMesh {
    /// A surface with nothing in it.
    pub fn empty() -> (r: SurfaceMesh)
        ensures
            r@ == empty_surface(),
    {
        let r = SurfaceMesh {
            vertices: Vec::new(),
            samples: Vec::new(),
            owners: Vec::new(),
            indices: Vec::new(),
        };
        assert(r@ =~= empty_surface());
        r
    }
}

/// `list` followed by the entries of `more`, each raised by `by`.
fn append_raised(list: &mut Vec<usize>, more: &Vec<usize>, by: usize, Ghost(limit): Ghost<int>)
    requires
        forall|i: int| 0 <= i < more@.len() ==> (#[trigger] more@[i]) < limit,
        by + limit <= usize::MAX,
    ensures
        as_ints(final(list)@) == as_ints(old(list)@) + raised(as_ints(more@), by as int),
{
    let mut i: usize = 0;
    let ghost start = list@;
    assert(as_ints(list@) =~= as_ints(start) + raised(as_ints(more@.take(0)), by as int));
    while i < more.len()
        invariant
            0 <= i <= more@.len(),
            forall|i: int| 0 <= i < more@.len() ==> (#[trigger] more@[i]) < limit,
            by + limit <= usize::MAX,
            as_ints(list@) == as_ints(start) + raised(
                as_ints(more@.take(i as int)),
                by as int,
            ),
        decreases more@.len() - i,
    {
        let v: usize = more[i];
        assert(v < limit);
        let ghost before = list@;
        list.push(v + by);
        assert(more@.take(i as int + 1) =~= more@.take(i as int).push(v));
        assert(as_ints(list@) =~= as_ints(before).push(v + by));
        assert(as_ints(list@) =~= as_ints(start) + raised(
            as_ints(more@.take(i as int + 1)),
            by as int,
        ));
        i += 1;
    }
    assert(more@.take(i as int) =~= more@);
}

/// A list of surfaces as one, in order: vertices, samples and triangles of each
/// follow those of the one before it.
pub fn merge_mesh_buffers(parts: Vec<SurfaceMesh>) -> (r: SurfaceMesh)
    requires
        forall|i: int| 0 <= i < parts@.len() ==> (#[trigger] parts@[i])@.well_formed(),
    ensures
        r@ == merged(Seq::new(parts@.len(), |i: int| parts@[i]@)),
{
    let mut out = SurfaceMesh::empty();
    let mut k: usize = 0;
    let ghost views = Seq::new(parts@.len(), |i: int| parts@[i]@);
    assert(views.take(0) =~= Seq::<Surface>::empty());
    while k < parts.len()
        invariant
            0 <= k <= parts@.len(),
            views == Seq::new(parts@.len(), |i: int| parts@[i]@),
            forall|i: int| 0 <= i < parts@.len() ==> (#[trigger] parts@[i])@.well_formed(),
            out@ == merged(views.take(k as int)),
        decreases parts@.len() - k,
    {
        let p = &parts[k];
        let ghost before = out@;
        let base: usize = out.vertices.len();
        let mut i: usize = 0;
        let ghost (ov, os) = (out.vertices@, out.samples@);
        assert(ov + p.vertices@.take(0) =~= ov);
        while i < p.vertices.len()
            invariant
                0 <= i <= p.vertices@.len(),
                out.vertices@ == ov + p.vertices@.take(i as int),
                out.samples@ == os,
                as_ints(out.owners@) == before.owners,
                as_ints(out.indices@) == before.indices,
            decreases p.vertices@.len() - i,
        {
            out.vertices.push(p.vertices[i]);
            assert(p.vertices@.take(i as int + 1) =~= p.vertices@.take(i as int).push(
                p.vertices@[i as int],
            ));
            assert(out.vertices@ =~= ov + p.vertices@.take(i as int + 1));
            i += 1;
        }
        assert(p.vertices@.take(i as int) =~= p.vertices@);
        let mut j: usize = 0;
        assert(os + p.samples@.take(0) =~= os);
        while j < p.samples.len()
            invariant
                0 <= j <= p.samples@.len(),
                out.samples@ == os + p.samples@.take(j as int),
                out.vertices@ == ov + p.vertices@,
                as_ints(out.owners@) == before.owners,
                as_ints(out.indices@) == before.indices,
            decreases p.samples@.len() - j,
        {
            out.samples.push(p.samples[j]);
            assert(p.samples@.take(j as int + 1) =~= p.samples@.take(j as int).push(
                p.samples@[j as int],
            ));
            assert(out.samples@ =~= os + p.samples@.take(j as int + 1));
            j += 1;
        }
        assert(p.samples@.take(j as int) =~= p.samples@);
        let n: usize = out.vertices.len();
        let ghost limit = p.vertices@.len() as int;
        proof {
            assert(n == base + limit);
            assert(p@.well_formed());
            assert forall|i: int| 0 <= i < p.owners@.len() implies (#[trigger] p.owners@[i])
                < limit by {
                assert(0 <= p@.owners[i] < p@.vertices.len());
            }
            assert forall|i: int| 0 <= i < p.indices@.len() implies (#[trigger] p.indices@[i])
                < limit by {
                assert(0 <= p@.indices[i] < p@.vertices.len());
            }
        }
        append_raised(&mut out.owners, &p.owners, base, Ghost(limit));
        append_raised(&mut out.indices, &p.indices, base, Ghost(limit));
        proof {
            assert(out@ =~= joined(before, p@));
            assert(views.take(k as int + 1).drop_last() =~= views.take(k as int));
            assert(views.take(k as int + 1).last() == p@);
        }
        k += 1;
    }
    assert(views.take(k as int) =~= views);
    out
}

} // verus!
