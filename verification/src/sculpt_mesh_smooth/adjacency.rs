//! Which vertices of a mesh are joined by a triangle.

use vstd::prelude::*;

verus! {

/// The neighbour lists with `j` listed at `i`, if it was not there.
pub open spec fn with_neighbor(adj: Seq<Seq<usize>>, i: int, j: int) -> Seq<Seq<usize>> {
    if adj[i].contains(j as usize) {
        adj
    } else {
        adj.update(i, adj[i].push(j as usize))
    }
}

/// The neighbour lists with the corners of a triangle listed at each other.
pub open spec fn with_triangle(adj: Seq<Seq<usize>>, a: int, b: int, c: int) -> Seq<Seq<usize>> {
    let s = with_neighbor(adj, a, b);
    let s = with_neighbor(s, a, c);
    let s = with_neighbor(s, b, a);
    let s = with_neighbor(s, b, c);
    let s = with_neighbor(s, c, a);
    with_neighbor(s, c, b)
}

/// The triangle names vertices of the mesh.
pub open spec fn triangle_valid(vertex_count: int, a: u32, b: u32, c: u32) -> bool {
    a < vertex_count && b < vertex_count && c < vertex_count
}

/// Neighbour lists of a mesh by its first `n` triangles; triangles that name
/// vertices the mesh does not have are left out.
pub open spec fn adjacency(vertex_count: nat, indices: Seq<u32>, n: nat) -> Seq<Seq<usize>>
    decreases n,
{
    if n == 0 {
        Seq::new(vertex_count, |i: int| Seq::<usize>::empty())
    } else {
        let head = adjacency(vertex_count, indices, (n - 1) as nat);
        let (a, b, c) = (indices[3 * n - 3], indices[3 * n - 2], indices[3 * n - 1]);
        if triangle_valid(vertex_count as int, a, b, c) {
            with_triangle(head, a as int, b as int, c as int)
        } else {
            head
        }
    }
}

/// `j` is listed at `i`.
pub open spec fn listed(adj: Seq<Seq<usize>>, i: int, j: int) -> bool {
    adj[i].contains(j as usize)
}

/// The lists are in order: one for each vertex, and in each only vertices, each once.
pub open spec fn lists_sound(adj: Seq<Seq<usize>>, vertex_count: int) -> bool {
    &&& adj.len() == vertex_count
    &&& forall|i: int| 0 <= i < adj.len() ==> (#[trigger] adj[i]).no_duplicates()
    &&& forall|i: int, k: int|
        0 <= i < adj.len() && 0 <= k < adj[i].len() ==> (#[trigger] adj[i][k]) < vertex_count
}

proof fn lemma_with_neighbor(adj: Seq<Seq<usize>>, n: int, i: int, j: int)
    requires
        lists_sound(adj, n),
        0 <= i < n <= usize::MAX,
        0 <= j < n,
    ensures
        lists_sound(with_neighbor(adj, i, j), n),
        forall|x: int, y: int|
            0 <= x < n && 0 <= y < n ==> (#[trigger] listed(with_neighbor(adj, i, j), x, y)
                <==> listed(adj, x, y) || (x == i && y == j)),
{
    let next = with_neighbor(adj, i, j);
    assert(adj[i].no_duplicates());
    if !adj[i].contains(j as usize) {
        let grown = adj[i].push(j as usize);
        assert(next[i] == grown);
        assert(grown[adj[i].len() as int] == j as usize);
        assert(grown.no_duplicates()) by {
            assert forall|a: int, b: int|
                0 <= a < grown.len() && 0 <= b < grown.len() && a != b implies grown[a]
                != grown[b] by {
                if a == adj[i].len() {
                    assert(adj[i].contains(adj[i][b]));
                } else if b == adj[i].len() {
                    assert(adj[i].contains(adj[i][a]));
                }
            }
        }
        assert forall|x: int, k: int|
            0 <= x < next.len() && 0 <= k < next[x].len() implies (#[trigger] next[x][k]) < n by {
            if x == i {
                if k < adj[i].len() {
                    assert(grown[k] == adj[i][k]);
                }
            } else {
                assert(next[x] == adj[x]);
                assert(adj[x][k] < n);
            }
        }
        assert forall|x: int, y: int| 0 <= x < n && 0 <= y < n implies (#[trigger] listed(
            next,
            x,
            y,
        ) <==> listed(adj, x, y) || (x == i && y == j)) by {
            if x == i {
                if adj[i].contains(y as usize) {
                    let k = choose|k: int| 0 <= k < adj[i].len() && adj[i][k] == y as usize;
                    assert(grown[k] == y as usize);
                }
                if grown.contains(y as usize) {
                    let k = choose|k: int| 0 <= k < grown.len() && grown[k] == y as usize;
                    if k < adj[i].len() {
                        assert(adj[i][k] == y as usize);
                    }
                }
            }
        }
    }
}

/// A pair of corners of a triangle, in either order.
pub open spec fn joins(a: int, b: int, c: int, x: int, y: int) -> bool {
    (x == a && (y == b || y == c)) || (x == b && (y == a || y == c)) || (x == c && (y == a || y
        == b))
}

proof fn lemma_with_triangle(adj: Seq<Seq<usize>>, n: int, a: int, b: int, c: int)
    requires
        lists_sound(adj, n),
        0 <= a < n <= usize::MAX,
        0 <= b < n,
        0 <= c < n,
    ensures
        lists_sound(with_triangle(adj, a, b, c), n),
        forall|x: int, y: int|
            0 <= x < n && 0 <= y < n ==> (#[trigger] listed(with_triangle(adj, a, b, c), x, y)
                <==> listed(adj, x, y) || joins(a, b, c, x, y)),
{
    let s1 = with_neighbor(adj, a, b);
    let s2 = with_neighbor(s1, a, c);
    let s3 = with_neighbor(s2, b, a);
    let s4 = with_neighbor(s3, b, c);
    let s5 = with_neighbor(s4, c, a);
    lemma_with_neighbor(adj, n, a, b);
    lemma_with_neighbor(s1, n, a, c);
    lemma_with_neighbor(s2, n, b, a);
    lemma_with_neighbor(s3, n, b, c);
    lemma_with_neighbor(s4, n, c, a);
    lemma_with_neighbor(s5, n, c, b);
    assert forall|x: int, y: int| 0 <= x < n && 0 <= y < n implies (#[trigger] listed(
        with_triangle(adj, a, b, c),
        x,
        y,
    ) <==> listed(adj, x, y) || joins(a, b, c, x, y)) by {
        assert(listed(s5, x, y) <==> listed(s4, x, y) || (x == c && y == a));
        assert(listed(s4, x, y) <==> listed(s3, x, y) || (x == b && y == c));
        assert(listed(s3, x, y) <==> listed(s2, x, y) || (x == b && y == a));
        assert(listed(s2, x, y) <==> listed(s1, x, y) || (x == a && y == c));
        assert(listed(s1, x, y) <==> listed(adj, x, y) || (x == a && y == b));
    }
}

/// Triangle `t` of the mesh joins two vertices.
pub open spec fn triangle_joins(
    vertex_count: nat,
    indices: Seq<u32>,
    t: int,
    x: int,
    y: int,
) -> bool {
    let (a, b, c) = (indices[3 * t], indices[3 * t + 1], indices[3 * t + 2]);
    triangle_valid(vertex_count as int, a, b, c) && joins(a as int, b as int, c as int, x, y)
}

/// A vertex lists another exactly if a triangle joins them, once; and then the
/// other lists it.
pub proof fn law_adjacency(vertex_count: nat, indices: Seq<u32>, n: nat)
    requires
        3 * n <= indices.len(),
        vertex_count <= usize::MAX,
    ensures
        lists_sound(adjacency(vertex_count, indices, n), vertex_count as int),
        forall|x: int, y: int|
            0 <= x < vertex_count && 0 <= y < vertex_count ==> (#[trigger] listed(
                adjacency(vertex_count, indices, n),
                x,
                y,
            ) <==> exists|t: int|
                0 <= t < n && #[trigger] triangle_joins(vertex_count, indices, t, x, y)),
        forall|x: int, y: int|
            0 <= x < vertex_count && 0 <= y < vertex_count ==> (#[trigger] listed(
                adjacency(vertex_count, indices, n),
                x,
                y,
            ) == listed(adjacency(vertex_count, indices, n), y, x)),
    decreases n,
{
    let adj = adjacency(vertex_count, indices, n);
    let v = vertex_count as int;
    if n > 0 {
        let m = (n - 1) as nat;
        law_adjacency(vertex_count, indices, m);
        let head = adjacency(vertex_count, indices, m);
        let (a, b, c) = (indices[3 * n - 3], indices[3 * n - 2], indices[3 * n - 1]);
        if triangle_valid(v, a, b, c) {
            lemma_with_triangle(head, v, a as int, b as int, c as int);
        }
        assert forall|x: int, y: int| 0 <= x < v && 0 <= y < v implies (#[trigger] listed(adj, x, y)
            <==> exists|t: int|
            0 <= t < n && #[trigger] triangle_joins(vertex_count, indices, t, x, y)) by {
            assert(listed(head, x, y) <==> exists|t: int|
                0 <= t < m && #[trigger] triangle_joins(vertex_count, indices, t, x, y));
            assert(triangle_joins(vertex_count, indices, m as int, x, y) <==> triangle_valid(
                v,
                a,
                b,
                c,
            ) && joins(a as int, b as int, c as int, x, y));
            if triangle_valid(v, a, b, c) {
                assert(listed(adj, x, y) <==> listed(head, x, y) || joins(
                    a as int,
                    b as int,
                    c as int,
                    x,
                    y,
                ));
            }
        }
        assert forall|x: int, y: int| 0 <= x < v && 0 <= y < v implies (#[trigger] listed(adj, x, y)
            == listed(adj, y, x)) by {
            assert(listed(head, x, y) == listed(head, y, x));
            assert(joins(a as int, b as int, c as int, x, y) == joins(
                a as int,
                b as int,
                c as int,
                y,
                x,
            ));
            if triangle_valid(v, a, b, c) {
                assert(listed(adj, y, x) <==> listed(head, y, x) || joins(
                    a as int,
                    b as int,
                    c as int,
                    y,
                    x,
                ));
            }
        }
    } else {
        assert forall|x: int, y: int| 0 <= x < v && 0 <= y < v implies !(#[trigger] listed(
            adj,
            x,
            y,
        )) by {
            assert(adj[x] =~= Seq::<usize>::empty());
        }
    }
}

/// What neighbour lists hold.
pub open spec fn list_views(adj: Seq<Vec<usize>>) -> Seq<Seq<usize>> {
    Seq::new(adj.len(), |i: int| adj[i]@)
}

/// Lists `j` at `i`, if it is not there.
fn push_unique(adj: &mut Vec<Vec<usize>>, i: usize, j: usize)
    requires
        i < old(adj)@.len(),
    ensures
        list_views(final(adj)@) == with_neighbor(list_views(old(adj)@), i as int, j as int),
{
    let ghost before = adj@;
    let mut k: usize = 0;
    let n: usize = adj[i].len();
    while k < n
        invariant
            adj@ == before,
            i < adj@.len(),
            n == adj@[i as int]@.len(),
            0 <= k <= n,
            forall|q: int| 0 <= q < k ==> adj@[i as int]@[q] != j,
        decreases n - k,
    {
        if adj[i][k] == j {
            assert(list_views(before)[i as int][k as int] == j);
            assert(list_views(before)[i as int].contains(j));
            return ;
        }
        k += 1;
    }
    assert(!list_views(before)[i as int].contains(j));
    let list = &mut adj[i];
    list.push(j);
    assert(list_views(adj@) =~= list_views(before).update(
        i as int,
        list_views(before)[i as int].push(j),
    ));
}

/// Neighbour lists of the vertices of a mesh: the vertices that a triangle joins
/// each to. Triangles that name vertices the mesh does not have are left out, and
/// so are indices after the last whole triangle.
pub fn build_adjacency(vertex_count: usize, indices: &[u32]) -> (r: Vec<Vec<usize>>)
    ensures
        list_views(r@) == adjacency(
            vertex_count as nat,
            indices@,
            (indices@.len() / 3) as nat,
        ),
{
    let mut adj: Vec<Vec<usize>> = Vec::new();
    let mut i: usize = 0;
    while i < vertex_count
        invariant
            0 <= i <= vertex_count,
            adj@.len() == i,
            forall|k: int| 0 <= k < i ==> (#[trigger] adj@[k])@ == Seq::<usize>::empty(),
        decreases vertex_count - i,
    {
        adj.push(Vec::new());
        i += 1;
    }
    assert(list_views(adj@) =~= adjacency(vertex_count as nat, indices@, 0));
    let len: usize = indices.len();
    let total: usize = len / 3;
    let mut t: usize = 0;
    while t < total
        invariant
            0 <= t <= total,
            len == indices@.len(),
            total == len / 3,
            list_views(adj@) == adjacency(vertex_count as nat, indices@, t as nat),
            adj@.len() == vertex_count,
        decreases total - t,
    {
        let a: usize = indices[3 * t] as usize;
        let b: usize = indices[3 * t + 1] as usize;
        let c: usize = indices[3 * t + 2] as usize;
        if a < vertex_count && b < vertex_count && c < vertex_count {
            let ghost s0 = list_views(adj@);
            push_unique(&mut adj, a, b);
            assert(list_views(adj@).len() == s0.len());
            push_unique(&mut adj, a, c);
            assert(list_views(adj@).len() == s0.len());
            push_unique(&mut adj, b, a);
            assert(list_views(adj@).len() == s0.len());
            push_unique(&mut adj, b, c);
            assert(list_views(adj@).len() == s0.len());
            push_unique(&mut adj, c, a);
            assert(list_views(adj@).len() == s0.len());
            push_unique(&mut adj, c, b);
            assert(list_views(adj@).len() == s0.len());
        }
        t += 1;
    }
    adj
}

} // verus!
