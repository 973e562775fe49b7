//! Lists of cells with repetitions left out.

use vstd::prelude::*;

use crate::collections::{coord_set_insert, coord_set_new, members};
use crate::voxelle::VoxelCoord;

verus! {

/// The cells of a list without repetitions, in the order in which each first occurs.
pub open spec fn first_occurrences(s: Seq<VoxelCoord>) -> Seq<VoxelCoord>
    decreases s.len(),
{
    if s.len() == 0 {
        seq![]
    } else {
        let r = first_occurrences(s.drop_last());
        if r.contains(s.last()) {
            r
        } else {
            r.push(s.last())
        }
    }
}

/// Leaving out repetitions keeps every cell of the list, once each, and no other.
pub proof fn law_first_occurrences(s: Seq<VoxelCoord>)
    ensures
        first_occurrences(s).no_duplicates(),
        first_occurrences(s).len() <= s.len(),
        forall|c: VoxelCoord| #[trigger] first_occurrences(s).contains(c) <==> s.contains(c),
    decreases s.len(),
{
    if s.len() > 0 {
        let head = s.drop_last();
        let r = first_occurrences(head);
        law_first_occurrences(head);
        assert forall|c: VoxelCoord| #[trigger]
            first_occurrences(s).contains(c) <==> s.contains(c) by {
            if s.contains(c) {
                let i = choose|i: int| 0 <= i < s.len() && s[i] == c;
                if i < s.len() - 1 {
                    assert(head[i] == c);
                    assert(r.contains(c));
                    let j = choose|j: int| 0 <= j < r.len() && r[j] == c;
                    assert(first_occurrences(s)[j] == c);
                } else if !r.contains(c) {
                    assert(first_occurrences(s)[r.len() as int] == c);
                }
            }
            if first_occurrences(s).contains(c) {
                let j = choose|j: int|
                    0 <= j < first_occurrences(s).len() && first_occurrences(s)[j] == c;
                if j < r.len() {
                    assert(r[j] == c);
                    assert(r.contains(c));
                    assert(head.contains(c));
                    let i = choose|i: int| 0 <= i < head.len() && head[i] == c;
                    assert(s[i] == c);
                } else {
                    assert(s[s.len() - 1] == c);
                }
            }
        }
    }
}

/// Leaving out repetitions a second time changes nothing.
pub proof fn law_first_occurrences_idempotent(s: Seq<VoxelCoord>)
    ensures
        first_occurrences(first_occurrences(s)) == first_occurrences(s),
{
    law_first_occurrences(s);
    lemma_distinct_unchanged(first_occurrences(s));
}

/// A list without repetitions is kept as it is.
proof fn lemma_distinct_unchanged(s: Seq<VoxelCoord>)
    requires
        s.no_duplicates(),
    ensures
        first_occurrences(s) == s,
    decreases s.len(),
{
    if s.len() > 0 {
        let head = s.drop_last();
        lemma_distinct_unchanged(head);
        assert(!head.contains(s.last()));
        assert(head.push(s.last()) =~= s);
    } else {
        assert(first_occurrences(s) =~= s);
    }
}

/// The list without repetitions grows with the list.
pub proof fn lemma_first_occurrences_push(s: Seq<VoxelCoord>, c: VoxelCoord)
    ensures
        first_occurrences(s.push(c)) == (if first_occurrences(s).contains(c) {
            first_occurrences(s)
        } else {
            first_occurrences(s).push(c)
        }),
{
    assert(s.push(c).drop_last() =~= s);
}

/// The cells of a list without repetitions, in the order in which each first occurs.
pub fn unique_cells(cells: &[VoxelCoord]) -> (r: Vec<VoxelCoord>)
    ensures
        r@ == first_occurrences(cells@),
{
    let mut seen = coord_set_new();
    let mut unique: Vec<VoxelCoord> = Vec::new();
    let mut i: usize = 0;
    assert(cells@.take(0) =~= Seq::<VoxelCoord>::empty());
    while i < cells.len()
        invariant
            0 <= i <= cells@.len(),
            unique@ == first_occurrences(cells@.take(i as int)),
            forall|c: VoxelCoord| #[trigger]
                members(seen).contains(c) <==> unique@.contains(c),
        decreases cells@.len() - i,
    {
        let p: VoxelCoord = cells[i];
        let ghost before = unique@;
        proof {
            assert(cells@.take(i as int + 1) =~= cells@.take(i as int).push(p));
            lemma_first_occurrences_push(cells@.take(i as int), p);
        }
        if coord_set_insert(&mut seen, p) {
            unique.push(p);
            proof {
                assert forall|c: VoxelCoord| #[trigger]
                    members(seen).contains(c) <==> unique@.contains(c) by {
                    if before.contains(c) {
                        let j = choose|j: int| 0 <= j < before.len() && before[j] == c;
                        assert(unique@[j] == c);
                    }
                    assert(unique@[before.len() as int] == p);
                }
            }
        }
        i += 1;
    }
    assert(cells@.take(i as int) =~= cells@);
    unique
}

/// Members of two lists in a row, and that nothing occurs twice in them.
pub(crate) proof fn lemma_concat(a: Seq<VoxelCoord>, b: Seq<VoxelCoord>)
    ensures
        forall|c: VoxelCoord| #[trigger] (a + b).contains(c) <==> a.contains(c) || b.contains(c),
        a.no_duplicates() && b.no_duplicates() && (forall|c: VoxelCoord|
            !(a.contains(c) && #[trigger] b.contains(c))) ==> (a + b).no_duplicates(),
{
    let s = a + b;
    assert forall|c: VoxelCoord| #[trigger] s.contains(c) <==> a.contains(c) || b.contains(c) by {
        if s.contains(c) {
            let i = choose|i: int| 0 <= i < s.len() && s[i] == c;
            if i < a.len() {
                assert(a[i] == c);
            } else {
                assert(b[i - a.len()] == c);
            }
        }
        if a.contains(c) {
            let i = choose|i: int| 0 <= i < a.len() && a[i] == c;
            assert(s[i] == c);
        }
        if b.contains(c) {
            let i = choose|i: int| 0 <= i < b.len() && b[i] == c;
            assert(s[i + a.len()] == c);
        }
    }
    if a.no_duplicates() && b.no_duplicates() && (forall|c: VoxelCoord|
        !(a.contains(c) && #[trigger] b.contains(c))) {
        assert forall|i: int, j: int| 0 <= i < s.len() && 0 <= j < s.len() && i != j implies s[i]
            != s[j] by {
            if i < a.len() && j >= a.len() {
                assert(a.contains(s[i]));
                assert(b.contains(b[j - a.len()]));
            } else if j < a.len() && i >= a.len() {
                assert(a.contains(s[j]));
                assert(b.contains(b[i - a.len()]));
            }
        }
    }
}

/// Cells keep the order in which they first occur: what follows a list changes
/// nothing of what is left of it.
pub proof fn law_first_occurrences_keep_their_order(s: Seq<VoxelCoord>, t: Seq<VoxelCoord>)
    ensures
        first_occurrences(s).len() <= first_occurrences(s + t).len(),
        first_occurrences(s + t).take(first_occurrences(s).len() as int) == first_occurrences(s),
    decreases t.len(),
{
    let r = first_occurrences(s);
    if t.len() == 0 {
        assert(s + t =~= s);
        assert(r.take(r.len() as int) =~= r);
    } else {
        law_first_occurrences_keep_their_order(s, t.drop_last());
        assert((s + t).drop_last() =~= s + t.drop_last());
        let before = first_occurrences(s + t.drop_last());
        let all = first_occurrences(s + t);
        assert(all.take(r.len() as int) =~= before.take(r.len() as int));
    }
}

} // verus!
