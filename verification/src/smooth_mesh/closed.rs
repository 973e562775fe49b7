//! Dual contouring surfaces have no border and are wound the same way throughout:
//! the triangles pass along every line between two vertices as often one way as
//! the other.

use vstd::prelude::*;

use crate::smooth_mesh::contour::{
    axis_node, axis_quads, cell_at, contoured, edge_quad, edges_in_lattice, lattice_frame,
    law_quads_are_complete, line_quads, sheet_quads, surface_cells,
    value_of, vertex_of,
};
use crate::smooth_mesh::crossing::law_lattice_border_is_empty;
use crate::smooth_mesh::lattice::{bounds, high_corner, lattice_fits, low_corner, Cells};
use crate::voxelle::{MaterialId, VoxelCoord};

verus! {

/// One where the step from `x` to `y` is that from `a` to `b`.
pub open spec fn step(x: int, y: int, a: int, b: int) -> int {
    if x == a && y == b {
        1
    } else {
        0
    }
}

/// How often the triangles of a list, each run round once, step from `a` to `b`.
pub open spec fn turns(indices: Seq<int>, a: int, b: int) -> int
    decreases indices.len(),
{
    if indices.len() < 3 {
        0
    } else {
        let n = indices.len() - 3;
        turns(indices.take(n), a, b) + step(indices[n], indices[n + 1], a, b) + step(
            indices[n + 1],
            indices[n + 2],
            a,
            b,
        ) + step(indices[n + 2], indices[n], a, b)
    }
}

/// How much more often the triangles step from `a` to `b` than back.
spec fn net(indices: Seq<int>, a: int, b: int) -> int {
    turns(indices, a, b) - turns(indices, b, a)
}

pub(crate) proof fn lemma_turns_concat(s: Seq<int>, t: Seq<int>, a: int, b: int)
    requires
        t.len() % 3 == 0,
    ensures
        turns(s + t, a, b) == turns(s, a, b) + turns(t, a, b),
    decreases t.len(),
{
    if t.len() == 0 {
        assert(s + t =~= s);
    } else {
        let n = t.len() - 3;
        lemma_turns_concat(s, t.take(n), a, b);
        assert((s + t).take(s.len() + n) =~= s + t.take(n));
    }
}

proof fn lemma_net_concat(s: Seq<int>, t: Seq<int>, a: int, b: int)
    requires
        t.len() % 6 == 0,
    ensures
        net(s + t, a, b) == net(s, a, b) + net(t, a, b),
{
    lemma_turns_concat(s, t, a, b);
    lemma_turns_concat(s, t, b, a);
}

/// Steps from `a` to `b` round the ring of four, less those back.
spec fn ring(c0: int, c1: int, c2: int, c3: int, a: int, b: int) -> int {
    step(c0, c1, a, b) + step(c1, c2, a, b) + step(c2, c3, a, b) + step(c3, c0, a, b) - step(
        c0,
        c1,
        b,
        a,
    ) - step(c1, c2, b, a) - step(c2, c3, b, a) - step(c3, c0, b, a)
}

/// The line that two triangles share is passed both ways; what is left is the ring
/// round both.
proof fn lemma_pair(c0: int, c1: int, c2: int, c3: int, a: int, b: int)
    ensures
        net(seq![c0, c1, c2, c0, c2, c3], a, b) == ring(c0, c1, c2, c3, a, b),
{
    let s = seq![c0, c1, c2, c0, c2, c3];
    let h = s.take(3);
    assert(h =~= seq![c0, c1, c2]);
    assert(h.take(0) =~= Seq::<int>::empty());
    assert(turns(h.take(0), a, b) == 0 && turns(h.take(0), b, a) == 0);
    assert(turns(s, a, b) == turns(h, a, b) + step(c0, c2, a, b) + step(c2, c3, a, b) + step(
        c3,
        c0,
        a,
        b,
    ));
    assert(turns(s, b, a) == turns(h, b, a) + step(c0, c2, b, a) + step(c2, c3, b, a) + step(
        c3,
        c0,
        b,
        a,
    ));
    assert(turns(h, a, b) == step(c0, c1, a, b) + step(c1, c2, a, b) + step(c2, c0, a, b));
    assert(turns(h, b, a) == step(c0, c1, b, a) + step(c1, c2, b, a) + step(c2, c0, b, a));
}

/// A place at whole-number coordinates.
type Spot = (int, int, int);

/// The coordinates of a cell.
spec fn spot(c: VoxelCoord) -> Spot {
    (c.0 as int, c.1 as int, c.2 as int)
}

/// One for a node inside the surface, zero for one outside.
spec fn inside(occupancy: Cells, n: Spot) -> int {
    if value_of(occupancy, n) == 0 {
        0
    } else {
        1
    }
}

/// Which way the surface faces on the edge that leaves a node along `axis`: one for
/// along the axis, minus one for against it, zero where the edge is not crossed.
spec fn facing(occupancy: Cells, axis: int, o: int, p: int, q: int) -> int {
    inside(occupancy, axis_node(axis, o, p, q)) - inside(occupancy, axis_node(axis, o + 1, p, q))
}

/// One where the step from `x` to `y` is that from `a` to `b`.
spec fn cell_step(x: Spot, y: Spot, a: Spot, b: Spot) -> int {
    if x == a && y == b {
        1
    } else {
        0
    }
}

/// Steps from `a` to `b`, less those back, round the four cells at an edge.
spec fn cell_ring(axis: int, o: int, p: int, q: int, a: Spot, b: Spot) -> int {
    let c0 = axis_node(axis, o, p - 1, q - 1);
    let c2 = axis_node(axis, o, p, q);
    let s = axis_node(axis, o, p, q - 1);
    let t = axis_node(axis, o, p - 1, q);
    let c1 = if axis == 1 {
        t
    } else {
        s
    };
    let c3 = if axis == 1 {
        s
    } else {
        t
    };
    cell_step(c0, c1, a, b) + cell_step(c1, c2, a, b) + cell_step(c2, c3, a, b) + cell_step(
        c3,
        c0,
        a,
        b,
    ) - cell_step(c0, c1, b, a) - cell_step(c1, c2, b, a) - cell_step(c2, c3, b, a) - cell_step(
        c3,
        c0,
        b,
        a,
    )
}

/// What the triangles round an edge add to the steps from `a` to `b`.
spec fn share(occupancy: Cells, axis: int, o: int, p: int, q: int, a: Spot, b: Spot) -> int {
    let f = facing(occupancy, axis, o, p, q);
    if f > 0 {
        cell_ring(axis, o, p, q, a, b)
    } else if f < 0 {
        -cell_ring(axis, o, p, q, a, b)
    } else {
        0
    }
}

/// The vertex of a cell is `a` exactly if the cell is that of vertex `a`.
proof fn lemma_vertex(places: Seq<VoxelCoord>, c: Spot, a: int)
    requires
        places.no_duplicates(),
        places.contains(cell_at(c)),
        0 <= a < places.len(),
        i32::MIN <= c.0 <= i32::MAX,
        i32::MIN <= c.1 <= i32::MAX,
        i32::MIN <= c.2 <= i32::MAX,
    ensures
        vertex_of(places, c) == a <==> c == spot(places[a]),
{
    let v = vertex_of(places, c);
    assert(places[v] == cell_at(c));
    assert(spot(cell_at(c)) == c);
    if c == spot(places[a]) {
        assert(cell_at(c) == places[a]);
    }
}

#[verifier::spinoff_prover]
proof fn lemma_edge_net(occupancy: Cells, axis: int, o: int, p: int, q: int, a: int, b: int)
    requires
        edges_in_lattice(occupancy, axis, o, p, q, 1, 1, 1),
        0 <= a < surface_cells(occupancy).len(),
        0 <= b < surface_cells(occupancy).len(),
    ensures
        edge_quad(occupancy, surface_cells(occupancy), axis, o, p, q).len() % 6 == 0,
        net(edge_quad(occupancy, surface_cells(occupancy), axis, o, p, q), a, b) == share(
            occupancy,
            axis,
            o,
            p,
            q,
            spot(surface_cells(occupancy)[a]),
            spot(surface_cells(occupancy)[b]),
        ),
{
    let places = surface_cells(occupancy);
    let quad = edge_quad(occupancy, places, axis, o, p, q);
    if facing(occupancy, axis, o, p, q) == 0 {
        assert(quad =~= Seq::<int>::empty());
        assert(turns(quad, a, b) == 0 && turns(quad, b, a) == 0);
    } else {
        law_quads_are_complete(occupancy, axis, o, p, q);
        let k0 = axis_node(axis, o, p - 1, q - 1);
        let k2 = axis_node(axis, o, p, q);
        let ks = axis_node(axis, o, p, q - 1);
        let kt = axis_node(axis, o, p - 1, q);
        assert(places.contains(cell_at(axis_node(axis, o, p - 1, q - 1))));
        assert(places.contains(cell_at(axis_node(axis, o, p - 0, q - 0))));
        assert(places.contains(cell_at(axis_node(axis, o, p - 0, q - 1))));
        assert(places.contains(cell_at(axis_node(axis, o, p - 1, q - 0))));
        lemma_vertex(places, k0, a);
        lemma_vertex(places, k2, a);
        lemma_vertex(places, ks, a);
        lemma_vertex(places, kt, a);
        lemma_vertex(places, k0, b);
        lemma_vertex(places, k2, b);
        lemma_vertex(places, ks, b);
        lemma_vertex(places, kt, b);
        let v0 = vertex_of(places, k0);
        let v2 = vertex_of(places, k2);
        let (v1, v3) = if axis == 1 {
            (vertex_of(places, kt), vertex_of(places, ks))
        } else {
            (vertex_of(places, ks), vertex_of(places, kt))
        };
        if facing(occupancy, axis, o, p, q) < 0 {
            assert(quad == seq![v0, v3, v2, v0, v2, v1]);
            lemma_pair(v0, v3, v2, v1, a, b);
        } else {
            assert(quad == seq![v0, v1, v2, v0, v2, v3]);
            lemma_pair(v0, v1, v2, v3, a, b);
        }
    }
}

/// Only at two edges do the triangles along `axis` touch the steps between `a` and `b`.
spec fn only_at(occupancy: Cells, axis: int, a: Spot, b: Spot, e: Spot, f: Spot) -> bool {
    &&& e != f
    &&& forall|o: int, p: int, q: int|
        (o, p, q) != e && (o, p, q) != f ==> #[trigger] share(occupancy, axis, o, p, q, a, b) == 0
}

/// What an edge adds, if it is among those of `no * np * nq` nodes from `(o, p, q)` on.
spec fn added(
    occupancy: Cells,
    axis: int,
    a: Spot,
    b: Spot,
    e: Spot,
    from: Spot,
    many: (nat, nat, nat),
) -> int {
    if from.0 <= e.0 < from.0 + many.0 && from.1 <= e.1 < from.1 + many.1 && from.2 <= e.2 < from.2
        + many.2 {
        share(occupancy, axis, e.0, e.1, e.2, a, b)
    } else {
        0
    }
}

proof fn lemma_line_net(
    occupancy: Cells,
    axis: int,
    o: int,
    p: int,
    q: int,
    n: nat,
    a: int,
    b: int,
    e: Spot,
    f: Spot,
)
    requires
        n > 0 ==> edges_in_lattice(occupancy, axis, o, p, q, 1, 1, n),
        0 <= a < surface_cells(occupancy).len(),
        0 <= b < surface_cells(occupancy).len(),
        only_at(
            occupancy,
            axis,
            spot(surface_cells(occupancy)[a]),
            spot(surface_cells(occupancy)[b]),
            e,
            f,
        ),
    ensures
        ({
            let places = surface_cells(occupancy);
            let quads = line_quads(occupancy, places, axis, o, p, q, n);
            let (k, l) = (spot(places[a]), spot(places[b]));
            &&& quads.len() % 6 == 0
            &&& net(quads, a, b) == added(occupancy, axis, k, l, e, (o, p, q), (1, 1, n)) + added(
                occupancy,
                axis,
                k,
                l,
                f,
                (o, p, q),
                (1, 1, n),
            )
        }),
    decreases n,
{
    let places = surface_cells(occupancy);
    if n > 0 {
        lemma_line_net(occupancy, axis, o, p, q, (n - 1) as nat, a, b, e, f);
        lemma_edge_net(occupancy, axis, o, p, q + n - 1, a, b);
        let head = line_quads(occupancy, places, axis, o, p, q, (n - 1) as nat);
        let last = edge_quad(occupancy, places, axis, o, p, q + n - 1);
        lemma_net_concat(head, last, a, b);
    } else {
        let s = line_quads(occupancy, places, axis, o, p, q, n);
        assert(turns(s, a, b) == 0 && turns(s, b, a) == 0);
    }
}

proof fn lemma_sheet_net(
    occupancy: Cells,
    axis: int,
    o: int,
    p: int,
    q: int,
    nq: nat,
    n: nat,
    a: int,
    b: int,
    e: Spot,
    f: Spot,
)
    requires
        n > 0 ==> edges_in_lattice(occupancy, axis, o, p, q, 1, n, nq),
        0 <= a < surface_cells(occupancy).len(),
        0 <= b < surface_cells(occupancy).len(),
        only_at(
            occupancy,
            axis,
            spot(surface_cells(occupancy)[a]),
            spot(surface_cells(occupancy)[b]),
            e,
            f,
        ),
    ensures
        ({
            let places = surface_cells(occupancy);
            let quads = sheet_quads(occupancy, places, axis, o, p, q, nq, n);
            let (k, l) = (spot(places[a]), spot(places[b]));
            &&& quads.len() % 6 == 0
            &&& net(quads, a, b) == added(occupancy, axis, k, l, e, (o, p, q), (1, n, nq)) + added(
                occupancy,
                axis,
                k,
                l,
                f,
                (o, p, q),
                (1, n, nq),
            )
        }),
    decreases n,
{
    let places = surface_cells(occupancy);
    if n > 0 {
        lemma_sheet_net(occupancy, axis, o, p, q, nq, (n - 1) as nat, a, b, e, f);
        lemma_line_net(occupancy, axis, o, p + n - 1, q, nq, a, b, e, f);
        let head = sheet_quads(occupancy, places, axis, o, p, q, nq, (n - 1) as nat);
        let last = line_quads(occupancy, places, axis, o, p + n - 1, q, nq);
        lemma_net_concat(head, last, a, b);
    } else {
        let s = sheet_quads(occupancy, places, axis, o, p, q, nq, n);
        assert(turns(s, a, b) == 0 && turns(s, b, a) == 0);
    }
}

proof fn lemma_axis_net(
    occupancy: Cells,
    axis: int,
    o: int,
    p: int,
    q: int,
    np: nat,
    nq: nat,
    n: nat,
    a: int,
    b: int,
    e: Spot,
    f: Spot,
)
    requires
        n > 0 ==> edges_in_lattice(occupancy, axis, o, p, q, n, np, nq),
        0 <= a < surface_cells(occupancy).len(),
        0 <= b < surface_cells(occupancy).len(),
        only_at(
            occupancy,
            axis,
            spot(surface_cells(occupancy)[a]),
            spot(surface_cells(occupancy)[b]),
            e,
            f,
        ),
    ensures
        ({
            let places = surface_cells(occupancy);
            let quads = axis_quads(occupancy, places, axis, o, p, q, np, nq, n);
            let (k, l) = (spot(places[a]), spot(places[b]));
            &&& quads.len() % 6 == 0
            &&& net(quads, a, b) == added(occupancy, axis, k, l, e, (o, p, q), (n, np, nq)) + added(
                occupancy,
                axis,
                k,
                l,
                f,
                (o, p, q),
                (n, np, nq),
            )
        }),
    decreases n,
{
    let places = surface_cells(occupancy);
    if n > 0 {
        lemma_axis_net(occupancy, axis, o, p, q, np, nq, (n - 1) as nat, a, b, e, f);
        lemma_sheet_net(occupancy, axis, o + n - 1, p, q, nq, np, a, b, e, f);
        let head = axis_quads(occupancy, places, axis, o, p, q, np, nq, (n - 1) as nat);
        let last = sheet_quads(occupancy, places, axis, o + n - 1, p, q, nq, np);
        lemma_net_concat(head, last, a, b);
    } else {
        let s = axis_quads(occupancy, places, axis, o, p, q, np, nq, n);
        assert(turns(s, a, b) == 0 && turns(s, b, a) == 0);
    }
}

/// A place along `axis`, and along the other two in their order.
spec fn along(axis: int, c: Spot) -> Spot {
    if axis == 0 {
        c
    } else if axis == 1 {
        (c.1, c.0, c.2)
    } else {
        (c.2, c.0, c.1)
    }
}

/// Greater of two numbers.
spec fn greater(a: int, b: int) -> int {
    if a > b {
        a
    } else {
        b
    }
}

/// The two edges along `axis` at which both cells lie, if they lie side by side; some
/// two edges otherwise.
spec fn common_edges(axis: int, a: Spot, b: Spot) -> (Spot, Spot) {
    let (u, v) = (along(axis, a), along(axis, b));
    if u.1 != v.1 {
        ((u.0, greater(u.1, v.1), u.2), (u.0, greater(u.1, v.1), u.2 + 1))
    } else {
        ((u.0, u.1, greater(u.2, v.2)), (u.0, u.1 + 1, greater(u.2, v.2)))
    }
}

#[verifier::spinoff_prover]
proof fn lemma_only_at(occupancy: Cells, axis: int, a: Spot, b: Spot)
    requires
        0 <= axis <= 2,
    ensures
        only_at(occupancy, axis, a, b, common_edges(axis, a, b).0, common_edges(axis, a, b).1),
{
    let (e, f) = common_edges(axis, a, b);
    assert forall|o: int, p: int, q: int|
        (o, p, q) != e && (o, p, q) != f implies #[trigger] share(
        occupancy,
        axis,
        o,
        p,
        q,
        a,
        b,
    ) == 0 by {
        assert(cell_ring(axis, o, p, q, a, b) == 0);
    }
}

/// An edge that is not one of the lattice is not crossed.
proof fn lemma_flat_beside(occupancy: Cells, axis: int, a: Spot, b: Spot, e: Spot)
    requires
        0 <= axis <= 2,
        bounds(
            occupancy.dom(),
            low_corner(occupancy.dom()),
            high_corner(occupancy.dom()),
        ),
    ensures
        ({
            let (m, n) = lattice_frame(occupancy.dom());
            let from = along(axis, m);
            let many = along(axis, (n.0 as int, n.1 as int, n.2 as int));
            added(
                occupancy,
                axis,
                a,
                b,
                e,
                from,
                ((many.0 - 1) as nat, many.1 as nat, many.2 as nat),
            ) == share(occupancy, axis, e.0, e.1, e.2, a, b)
        }),
{
    let (m, n) = lattice_frame(occupancy.dom());
    let from = along(axis, m);
    let many = along(axis, (n.0 as int, n.1 as int, n.2 as int));
    if !(from.0 <= e.0 < from.0 + many.0 - 1 && from.1 <= e.1 < from.1 + many.1 && from.2 <= e.2
        < from.2 + many.2) {
        let k = axis_node(axis, e.0, e.1, e.2);
        let l = axis_node(axis, e.0 + 1, e.1, e.2);
        law_lattice_border_is_empty(occupancy, k.0, k.1, k.2);
        law_lattice_border_is_empty(occupancy, l.0, l.1, l.2);
        assert(facing(occupancy, axis, e.0, e.1, e.2) == 0);
    }
}

/// What the edges along `axis` that both cells share add to the steps from `a` to `b`.
spec fn shared(occupancy: Cells, axis: int, a: Spot, b: Spot) -> int {
    let (e, f) = common_edges(axis, a, b);
    share(occupancy, axis, e.0, e.1, e.2, a, b) + share(occupancy, axis, f.0, f.1, f.2, a, b)
}

/// What cells side by side share, by the way from one to the other; other cells
/// share nothing.
#[verifier::spinoff_prover]
proof fn lemma_shared(occupancy: Cells, axis: int, a: Spot, b: Spot)
    requires
        0 <= axis <= 2,
    ensures
        ({
            let (u, v) = (along(axis, a), along(axis, b));
            let (e, f) = common_edges(axis, a, b);
            let d = facing(occupancy, axis, e.0, e.1, e.2) - facing(occupancy, axis, f.0, f.1, f.2);
            let t = if axis == 1 {
                -d
            } else {
                d
            };
            shared(occupancy, axis, a, b) == (if u.0 != v.0 {
                0
            } else if u.2 == v.2 && v.1 == u.1 + 1 {
                -t
            } else if u.2 == v.2 && v.1 == u.1 - 1 {
                t
            } else if u.1 == v.1 && v.2 == u.2 + 1 {
                t
            } else if u.1 == v.1 && v.2 == u.2 - 1 {
                -t
            } else {
                0
            })
        }),
{
    let (u, v) = (along(axis, a), along(axis, b));
    let (e, f) = common_edges(axis, a, b);
    let (r, s) = (
        cell_ring(axis, e.0, e.1, e.2, a, b),
        cell_ring(axis, f.0, f.1, f.2, a, b),
    );
    let t = if axis == 1 {
        -1int
    } else {
        1int
    };
    if u.0 != v.0 {
        assert(r == 0 && s == 0);
    } else if u.2 == v.2 && v.1 == u.1 + 1 {
        assert(r == -t && s == t);
    } else if u.2 == v.2 && v.1 == u.1 - 1 {
        assert(r == t && s == -t);
    } else if u.1 == v.1 && v.2 == u.2 + 1 {
        assert(r == t && s == -t);
    } else if u.1 == v.1 && v.2 == u.2 - 1 {
        assert(r == -t && s == t);
    } else {
        assert(r == 0 && s == 0);
    }
}

/// Round the face between two cells the surface goes in as often as it comes out.
proof fn lemma_face_closes(occupancy: Cells, a: Spot, b: Spot)
    ensures
        shared(occupancy, 0, a, b) + shared(occupancy, 1, a, b) + shared(occupancy, 2, a, b) == 0,
{
    lemma_shared(occupancy, 0, a, b);
    lemma_shared(occupancy, 1, a, b);
    lemma_shared(occupancy, 2, a, b);
}

proof fn lemma_axis_shared(occupancy: Cells, axis: int, a: int, b: int)
    requires
        0 <= axis <= 2,
        lattice_fits(occupancy.dom()),
        bounds(
            occupancy.dom(),
            low_corner(occupancy.dom()),
            high_corner(occupancy.dom()),
        ),
        0 <= a < surface_cells(occupancy).len(),
        0 <= b < surface_cells(occupancy).len(),
    ensures
        ({
            let places = surface_cells(occupancy);
            let (m, n) = lattice_frame(occupancy.dom());
            let from = along(axis, m);
            let many = along(axis, (n.0 as int, n.1 as int, n.2 as int));
            let quads = axis_quads(
                occupancy,
                places,
                axis,
                from.0,
                from.1,
                from.2,
                many.1 as nat,
                many.2 as nat,
                (many.0 - 1) as nat,
            );
            &&& quads.len() % 6 == 0
            &&& net(quads, a, b) == shared(occupancy, axis, spot(places[a]), spot(places[b]))
        }),
{
    let places = surface_cells(occupancy);
    let (m, n) = lattice_frame(occupancy.dom());
    let from = along(axis, m);
    let many = along(axis, (n.0 as int, n.1 as int, n.2 as int));
    let (k, l) = (spot(places[a]), spot(places[b]));
    let (e, f) = common_edges(axis, k, l);
    lemma_only_at(occupancy, axis, k, l);
    lemma_flat_beside(occupancy, axis, k, l, e);
    lemma_flat_beside(occupancy, axis, k, l, f);
    lemma_axis_net(
        occupancy,
        axis,
        from.0,
        from.1,
        from.2,
        many.1 as nat,
        many.2 as nat,
        (many.0 - 1) as nat,
        a,
        b,
        e,
        f,
    );
}

/// A dual contouring surface is closed and wound the same way throughout: between any
/// two of its vertices the triangles step as often one way as the other. Every crossed
/// edge has two triangles.
pub proof fn law_surface_is_closed(
    color: Cells,
    occupancy: Cells,
    material: MaterialId,
    a: int,
    b: int,
)
    requires
        lattice_fits(occupancy.dom()),
        bounds(
            occupancy.dom(),
            low_corner(occupancy.dom()),
            high_corner(occupancy.dom()),
        ),
        0 <= a < contoured(color, occupancy, material).vertices.len(),
        0 <= b < contoured(color, occupancy, material).vertices.len(),
    ensures
        contoured(color, occupancy, material).indices.len() % 6 == 0,
        turns(contoured(color, occupancy, material).indices, a, b) == turns(
            contoured(color, occupancy, material).indices,
            b,
            a,
        ),
{
    let places = surface_cells(occupancy);
    let (m, n) = lattice_frame(occupancy.dom());
    lemma_axis_shared(occupancy, 0, a, b);
    lemma_axis_shared(occupancy, 1, a, b);
    lemma_axis_shared(occupancy, 2, a, b);
    lemma_face_closes(occupancy, spot(places[a]), spot(places[b]));
    let x = axis_quads(occupancy, places, 0, m.0, m.1, m.2, n.1, n.2, (n.0 - 1) as nat);
    let y = axis_quads(occupancy, places, 1, m.1, m.0, m.2, n.0, n.2, (n.1 - 1) as nat);
    let z = axis_quads(occupancy, places, 2, m.2, m.0, m.1, n.0, n.1, (n.2 - 1) as nat);
    lemma_net_concat(x, y, a, b);
    lemma_net_concat(x + y, z, a, b);
}

/// Component along `axis` of the cross product of the steps from `c` to `d` and from
/// `d` to `e`: positive where they turn left, seen from ahead on the axis.
pub open spec fn turn_about(axis: int, c: VoxelCoord, d: VoxelCoord, e: VoxelCoord) -> int {
    if axis == 0 {
        (d.1 - c.1) * (e.2 - d.2) - (d.2 - c.2) * (e.1 - d.1)
    } else if axis == 1 {
        (d.2 - c.2) * (e.0 - d.0) - (d.0 - c.0) * (e.2 - d.2)
    } else {
        (d.0 - c.0) * (e.1 - d.1) - (d.1 - c.1) * (e.0 - d.0)
    }
}

proof fn lemma_unit_product(x: int, y: int)
    requires
        -1 <= x <= 1,
        -1 <= y <= 1,
    ensures
        x * y == (if y == 1 {
            x
        } else if y == -1 {
            -x
        } else {
            0
        }),
{
    assert(x * 1 == x && x * -1 == -x && x * 0 == 0);
}

/// The products of a turn, where every coordinate changes by one at most.
proof fn lemma_turn(axis: int, c: VoxelCoord, d: VoxelCoord, e: VoxelCoord)
    requires
        0 <= axis <= 2,
        -1 <= d.0 - c.0 <= 1 && -1 <= d.1 - c.1 <= 1 && -1 <= d.2 - c.2 <= 1,
        -1 <= e.0 - d.0 <= 1 && -1 <= e.1 - d.1 <= 1 && -1 <= e.2 - d.2 <= 1,
    ensures
        ({
            let (i, j) = if axis == 0 {
                ((d.1 - c.1, d.2 - c.2), (e.1 - d.1, e.2 - d.2))
            } else if axis == 1 {
                ((d.2 - c.2, d.0 - c.0), (e.2 - d.2, e.0 - d.0))
            } else {
                ((d.0 - c.0, d.1 - c.1), (e.0 - d.0, e.1 - d.1))
            };
            turn_about(axis, c, d, e) == (if j.1 == 1 {
                i.0
            } else if j.1 == -1 {
                -i.0
            } else {
                0
            }) - (if j.0 == 1 {
                i.1
            } else if j.0 == -1 {
                -i.1
            } else {
                0
            })
        }),
{
    lemma_unit_product(d.1 - c.1, e.2 - d.2);
    lemma_unit_product(d.2 - c.2, e.1 - d.1);
    lemma_unit_product(d.2 - c.2, e.0 - d.0);
    lemma_unit_product(d.0 - c.0, e.2 - d.2);
    lemma_unit_product(d.0 - c.0, e.1 - d.1);
    lemma_unit_product(d.1 - c.1, e.0 - d.0);
}

/// The triangles round a crossed edge face the end of it that is outside.
pub proof fn law_quads_face_outward(occupancy: Cells, axis: int, o: int, p: int, q: int)
    requires
        lattice_fits(occupancy.dom()),
        bounds(
            occupancy.dom(),
            low_corner(occupancy.dom()),
            high_corner(occupancy.dom()),
        ),
        0 <= axis <= 2,
        ({
            let (m, n) = lattice_frame(occupancy.dom());
            let c = axis_node(axis, o, p, q);
            m.0 <= c.0 < m.0 + n.0 && m.1 <= c.1 < m.1 + n.1 && m.2 <= c.2 < m.2 + n.2
        }),
        (value_of(occupancy, axis_node(axis, o, p, q)) == 0) != (value_of(
            occupancy,
            axis_node(axis, o + 1, p, q),
        ) == 0),
    ensures
        ({
            let places = surface_cells(occupancy);
            let quad = edge_quad(occupancy, places, axis, o, p, q);
            let way = if value_of(occupancy, axis_node(axis, o, p, q)) == 0 {
                -1int
            } else {
                1int
            };
            &&& turn_about(axis, places[quad[0]], places[quad[1]], places[quad[2]]) == way
            &&& turn_about(axis, places[quad[3]], places[quad[4]], places[quad[5]]) == way
        }),
{
    let places = surface_cells(occupancy);
    law_quads_are_complete(occupancy, axis, o, p, q);
    assert(places.contains(cell_at(axis_node(axis, o, p - 1, q - 1))));
    assert(places.contains(cell_at(axis_node(axis, o, p - 0, q - 0))));
    assert(places.contains(cell_at(axis_node(axis, o, p - 0, q - 1))));
    assert(places.contains(cell_at(axis_node(axis, o, p - 1, q - 0))));
    assert(places[vertex_of(places, axis_node(axis, o, p - 1, q - 1))] == cell_at(
        axis_node(axis, o, p - 1, q - 1),
    ));
    assert(places[vertex_of(places, axis_node(axis, o, p, q))] == cell_at(
        axis_node(axis, o, p, q),
    ));
    assert(places[vertex_of(places, axis_node(axis, o, p, q - 1))] == cell_at(
        axis_node(axis, o, p, q - 1),
    ));
    assert(places[vertex_of(places, axis_node(axis, o, p - 1, q))] == cell_at(
        axis_node(axis, o, p - 1, q),
    ));
    let quad = edge_quad(occupancy, places, axis, o, p, q);
    lemma_turn(axis, places[quad[0]], places[quad[1]], places[quad[2]]);
    lemma_turn(axis, places[quad[3]], places[quad[4]], places[quad[5]]);
}

} // verus!
