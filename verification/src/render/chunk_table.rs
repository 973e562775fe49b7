//! The opaque mesh split into spatial chunks: one set of draw buffers per
//! chunk, found by chunk key and walked in key order.

use vstd::prelude::*;

use crate::collections::cell_le;
use crate::voxelle::VoxelCoord;

verus! {

/// Position of a chunk in the chunk grid.
pub type ChunkKey = VoxelCoord;

/// Draw buffers of one chunk.
#[derive(Clone, Copy, Debug, PartialEq, Eq, Structural)]
pub struct ChunkDraw {
    /// Bytes of the vertex buffer.
    pub vertex_bytes: u64,
    /// Bytes of the index buffer.
    pub index_bytes: u64,
    pub opaque_index_count: u32,
    pub transparent_index_count: u32,
    /// The opaque indices come first and the transparent ones after them.
    pub partitioned: bool,
}

/// A chunk and its draw buffers.
#[derive(Clone, Copy, Debug)]
pub struct ChunkEntry {
    pub key: ChunkKey,
    pub draw: ChunkDraw,
}

/// The chunks with draw buffers, in key order.
#[derive(Debug)]
pub struct ChunkTable {
    pub entries: Vec<ChunkEntry>,
}

/// A chunk comes before another.
pub open spec fn key_lt(a: ChunkKey, b: ChunkKey) -> bool {
    cell_le(a, b) && a != b
}

/// Keys ascend, so none occurs twice.
pub open spec fn ascending(s: Seq<ChunkEntry>) -> bool {
    forall|i: int, j: int| 0 <= i < j < s.len() ==> #[trigger] key_lt(s[i].key, s[j].key)
}

/// The draw buffers of a chunk, if it has any.
pub open spec fn lookup(s: Seq<ChunkEntry>, key: ChunkKey) -> Option<ChunkDraw> {
    if exists|i: int| 0 <= i < s.len() && s[i].key == key {
        Some(s[choose|i: int| 0 <= i < s.len() && s[i].key == key].draw)
    } else {
        None
    }
}

proof fn lemma_lookup(s: Seq<ChunkEntry>, i: int)
    requires
        ascending(s),
        0 <= i < s.len(),
    ensures
        lookup(s, s[i].key) == Some(s[i].draw),
{
    let k = choose|k: int| 0 <= k < s.len() && s[k].key == s[i].key;
    if k < i {
        assert(key_lt(s[k].key, s[i].key));
    } else if i < k {
        assert(key_lt(s[i].key, s[k].key));
    }
}

/// Two tables in key order that hold the same draw buffers for every chunk are the same.
pub proof fn law_key_order_is_canonical(a: Seq<ChunkEntry>, b: Seq<ChunkEntry>)
    requires
        ascending(a),
        ascending(b),
        forall|k: ChunkKey| #[trigger] lookup(a, k) == lookup(b, k),
    ensures
        a == b,
    decreases a.len(),
{
    if a.len() == 0 {
        if b.len() > 0 {
            lemma_lookup(b, 0);
            assert(lookup(a, b[0].key) == lookup(b, b[0].key));
        }
        assert(a =~= b);
    } else {
        let la = a.last();
        lemma_lookup(a, a.len() - 1);
        assert(lookup(b, la.key) == Some(la.draw));
        let j = choose|j: int| 0 <= j < b.len() && b[j].key == la.key;
        lemma_lookup(b, b.len() - 1);
        let lb = b.last();
        assert(lookup(a, lb.key) == Some(lb.draw));
        let i = choose|i: int| 0 <= i < a.len() && a[i].key == lb.key;
        if j < b.len() - 1 {
            assert(key_lt(b[j].key, lb.key));
            if i < a.len() - 1 {
                assert(key_lt(a[i].key, la.key));
            }
        }
        assert(la.key == lb.key);
        assert(la == lb);
        let da = a.drop_last();
        let db = b.drop_last();
        assert forall|x: int, y: int| 0 <= x < y < da.len() implies #[trigger] key_lt(
            da[x].key,
            da[y].key,
        ) by {
            assert(key_lt(a[x].key, a[y].key));
        }
        assert forall|x: int, y: int| 0 <= x < y < db.len() implies #[trigger] key_lt(
            db[x].key,
            db[y].key,
        ) by {
            assert(key_lt(b[x].key, b[y].key));
        }
        assert forall|k: ChunkKey| #[trigger] lookup(da, k) == lookup(db, k) by {
            lemma_lookup_drop(a, k);
            lemma_lookup_drop(b, k);
            assert(lookup(a, k) == lookup(b, k));
        }
        law_key_order_is_canonical(da, db);
        assert(a =~= da.push(la));
        assert(b =~= db.push(lb));
    }
}

proof fn lemma_lookup_drop(s: Seq<ChunkEntry>, k: ChunkKey)
    requires
        ascending(s),
        s.len() > 0,
    ensures
        lookup(s.drop_last(), k) == (if k == s.last().key {
            None
        } else {
            lookup(s, k)
        }),
{
    let d = s.drop_last();
    assert forall|x: int, y: int| 0 <= x < y < d.len() implies #[trigger] key_lt(d[x].key, d[y].key) by {
        assert(key_lt(s[x].key, s[y].key));
    }
    if exists|i: int| 0 <= i < d.len() && d[i].key == k {
        let i = choose|i: int| 0 <= i < d.len() && d[i].key == k;
        lemma_lookup(d, i);
        assert(s[i] == d[i]);
        lemma_lookup(s, i);
        assert(key_lt(s[i].key, s[s.len() - 1].key));
    } else if k != s.last().key {
        if exists|i: int| 0 <= i < s.len() && s[i].key == k {
            let i = choose|i: int| 0 <= i < s.len() && s[i].key == k;
            assert(i < d.len());
            assert(d[i].key == k);
        }
    }
}

fn before(a: ChunkKey, b: ChunkKey) -> (r: bool)
    ensures
        r == key_lt(a, b),
{
    a.0 < b.0 || (a.0 == b.0 && (a.1 < b.1 || (a.1 == b.1 && a.2 < b.2)))
}

impl ChunkTable {
    /// Keys ascend, and no chunk has more indices than can be counted.
    pub open spec fn well_formed(&self) -> bool {
        &&& ascending(self.entries@)
        &&& forall|i: int|
            0 <= i < self.entries@.len() ==> index_total((#[trigger] self.entries@[i]).draw)
                <= u32::MAX
    }

    /// A table without chunks.
    pub fn new() -> (r: ChunkTable)
        ensures
            r.well_formed(),
            r.entries@.len() == 0,
    {
        ChunkTable { entries: Vec::new() }
    }

    /// First entry whose key does not come before `key`.
    fn seek(&self, key: ChunkKey) -> (at: usize)
        requires
            self.well_formed(),
        ensures
            at <= self.entries@.len(),
            forall|i: int| 0 <= i < at ==> key_lt(#[trigger] self.entries@[i].key, key),
            at < self.entries@.len() ==> !key_lt(self.entries@[at as int].key, key),
    {
        let n: usize = self.entries.len();
        let mut at: usize = 0;
        while at < n && before(self.entries[at].key, key)
            invariant
                at <= n,
                n == self.entries@.len(),
                forall|i: int| 0 <= i < at ==> key_lt(#[trigger] self.entries@[i].key, key),
            ensures
                at <= n,
                forall|i: int| 0 <= i < at ==> key_lt(#[trigger] self.entries@[i].key, key),
                at < n ==> !key_lt(self.entries@[at as int].key, key),
            decreases n - at,
        {
            at += 1;
        }
        at
    }

    /// The draw buffers of a chunk, if it has any.
    pub fn get(&self, key: ChunkKey) -> (r: Option<ChunkDraw>)
        requires
            self.well_formed(),
        ensures
            r == lookup(self.entries@, key),
    {
        let at = self.seek(key);
        if at < self.entries.len() {
            let e = self.entries[at];
            if e.key.0 == key.0 && e.key.1 == key.1 && e.key.2 == key.2 {
                proof {
                    lemma_lookup(self.entries@, at as int);
                }
                return Some(e.draw);
            }
        }
        proof {
            let s = self.entries@;
            assert forall|i: int| 0 <= i < s.len() implies (#[trigger] s[i]).key != key by {
                if at < i {
                    assert(key_lt(s[at as int].key, s[i].key));
                }
            }
        }
        None
    }

    /// Gives a chunk its draw buffers, in place of those it had.
    pub fn insert(&mut self, key: ChunkKey, draw: ChunkDraw)
        requires
            old(self).well_formed(),
            index_total(draw) <= u32::MAX,
        ensures
            final(self).well_formed(),
            forall|k: ChunkKey|
                #[trigger] lookup(final(self).entries@, k) == (if k == key {
                    Some(draw)
                } else {
                    lookup(old(self).entries@, k)
                }),
    {
        let ghost was = self.entries@;
        let at = self.seek(key);
        let mut present = false;
        if at < self.entries.len() {
            let e = self.entries[at];
            present = e.key.0 == key.0 && e.key.1 == key.1 && e.key.2 == key.2;
        }
        let added = ChunkEntry { key, draw };
        if present {
            self.entries.set(at, added);
            proof {
                let s = self.entries@;
                assert(s =~= was.update(at as int, added));
                assert forall|i: int, j: int| 0 <= i < j < s.len() implies #[trigger] key_lt(
                    s[i].key,
                    s[j].key,
                ) by {
                    assert(key_lt(was[i].key, was[j].key));
                }
                assert forall|k: ChunkKey|
                    #[trigger] lookup(s, k) == (if k == key {
                        Some(draw)
                    } else {
                        lookup(was, k)
                    }) by {
                    lemma_same_elsewhere(was, s, key, draw, k, at as int);
                }
            }
        } else {
            self.entries.insert(at, added);
            proof {
                let s = self.entries@;
                assert(s =~= was.insert(at as int, added));
                assert forall|i: int| at <= i < was.len() implies key_lt(
                    key,
                    (#[trigger] was[i]).key,
                ) by {
                    if at < i {
                        assert(key_lt(was[at as int].key, was[i].key));
                    }
                }
                assert forall|i: int, j: int| 0 <= i < j < s.len() implies #[trigger] key_lt(
                    s[i].key,
                    s[j].key,
                ) by {
                    let a = if i < at {
                        i
                    } else {
                        i - 1
                    };
                    let b = if j < at {
                        j
                    } else {
                        j - 1
                    };
                    if i != at && j != at {
                        assert(key_lt(was[a].key, was[b].key));
                        assert(s[i] == was[a] && s[j] == was[b]);
                    } else if i == at {
                        assert(s[j] == was[b]);
                    } else {
                        assert(s[i] == was[a]);
                    }
                }
                assert forall|k: ChunkKey|
                    #[trigger] lookup(s, k) == (if k == key {
                        Some(draw)
                    } else {
                        lookup(was, k)
                    }) by {
                    if k == key {
                        assert(s[at as int] == added);
                        lemma_lookup(s, at as int);
                    } else if exists|i: int| 0 <= i < was.len() && was[i].key == k {
                        let i = choose|i: int| 0 <= i < was.len() && was[i].key == k;
                        lemma_lookup(was, i);
                        let m = if i < at {
                            i
                        } else {
                            i + 1
                        };
                        assert(s[m] == was[i]);
                        lemma_lookup(s, m);
                    } else if exists|i: int| 0 <= i < s.len() && s[i].key == k {
                        let i = choose|i: int| 0 <= i < s.len() && s[i].key == k;
                        let m = if i < at {
                            i
                        } else {
                            i - 1
                        };
                        assert(s[i] == was[m]);
                    }
                }
                assert forall|i: int| 0 <= i < s.len() implies index_total(
                    (#[trigger] s[i]).draw,
                ) <= u32::MAX by {
                    if i < at {
                        assert(s[i] == was[i]);
                    } else if i > at {
                        assert(s[i] == was[i - 1]);
                    }
                }
            }
        }
    }

    /// Takes a chunk's draw buffers away.
    pub fn remove(&mut self, key: ChunkKey)
        requires
            old(self).well_formed(),
        ensures
            final(self).well_formed(),
            forall|k: ChunkKey|
                #[trigger] lookup(final(self).entries@, k) == (if k == key {
                    None
                } else {
                    lookup(old(self).entries@, k)
                }),
    {
        let ghost was = self.entries@;
        let at = self.seek(key);
        let mut present = false;
        if at < self.entries.len() {
            let e = self.entries[at];
            present = e.key.0 == key.0 && e.key.1 == key.1 && e.key.2 == key.2;
        }
        if present {
            let _ = self.entries.remove(at);
            proof {
                let s = self.entries@;
                assert(s =~= was.remove(at as int));
                assert forall|i: int, j: int| 0 <= i < j < s.len() implies #[trigger] key_lt(
                    s[i].key,
                    s[j].key,
                ) by {
                    let a = if i < at {
                        i
                    } else {
                        i + 1
                    };
                    let b = if j < at {
                        j
                    } else {
                        j + 1
                    };
                    assert(s[i] == was[a] && s[j] == was[b]);
                    assert(key_lt(was[a].key, was[b].key));
                }
                assert forall|k: ChunkKey|
                    #[trigger] lookup(s, k) == (if k == key {
                        None
                    } else {
                        lookup(was, k)
                    }) by {
                    if exists|i: int| 0 <= i < s.len() && s[i].key == k {
                        let i = choose|i: int| 0 <= i < s.len() && s[i].key == k;
                        let m = if i < at {
                            i
                        } else {
                            i + 1
                        };
                        assert(s[i] == was[m]);
                        lemma_lookup(was, m);
                        lemma_lookup(s, i);
                        if m < at {
                            assert(key_lt(was[m].key, was[at as int].key));
                        } else {
                            assert(key_lt(was[at as int].key, was[m].key));
                        }
                    } else if k != key && exists|i: int| 0 <= i < was.len() && was[i].key == k {
                        let i = choose|i: int| 0 <= i < was.len() && was[i].key == k;
                        let m = if i < at {
                            i
                        } else {
                            i - 1
                        };
                        assert(i != at);
                        assert(s[m] == was[i]);
                    }
                }
                assert forall|i: int| 0 <= i < s.len() implies index_total(
                    (#[trigger] s[i]).draw,
                ) <= u32::MAX by {
                    if i < at {
                        assert(s[i] == was[i]);
                    } else {
                        assert(s[i] == was[i + 1]);
                    }
                }
            }
        } else {
            proof {
                assert forall|i: int| 0 <= i < was.len() implies (#[trigger] was[i]).key != key by {
                    if at < i {
                        assert(key_lt(was[at as int].key, was[i].key));
                    }
                }
            }
        }
    }
}

proof fn lemma_same_elsewhere(
    was: Seq<ChunkEntry>,
    s: Seq<ChunkEntry>,
    key: ChunkKey,
    draw: ChunkDraw,
    k: ChunkKey,
    at: int,
)
    requires
        ascending(was),
        ascending(s),
        0 <= at < was.len(),
        was[at].key == key,
        s == was.update(at, ChunkEntry { key, draw }),
    ensures
        lookup(s, k) == (if k == key {
            Some(draw)
        } else {
            lookup(was, k)
        }),
{
    if k == key {
        assert(s[at].key == key);
        lemma_lookup(s, at);
    } else if exists|i: int| 0 <= i < was.len() && was[i].key == k {
        let i = choose|i: int| 0 <= i < was.len() && was[i].key == k;
        assert(s[i] == was[i]);
        lemma_lookup(was, i);
        lemma_lookup(s, i);
    } else if exists|i: int| 0 <= i < s.len() && s[i].key == k {
        let i = choose|i: int| 0 <= i < s.len() && s[i].key == k;
        assert(s[i] == was[i]);
    }
}

/// All indices of a chunk.
pub open spec fn index_total(d: ChunkDraw) -> int {
    d.opaque_index_count + d.transparent_index_count
}

/// All indices of some chunks.
pub open spec fn index_sum(s: Seq<ChunkEntry>) -> int
    decreases s.len(),
{
    if s.len() == 0 {
        0
    } else {
        index_sum(s.drop_last()) + index_total(s.last().draw)
    }
}

/// All vertices that the vertex buffers of some chunks have room for.
pub open spec fn vertex_sum(s: Seq<ChunkEntry>, stride: int) -> int
    decreases s.len(),
{
    if s.len() == 0 {
        0
    } else {
        vertex_sum(s.drop_last(), stride) + s.last().draw.vertex_bytes as int / stride
    }
}

/// A part of some chunks has no more indices than all of them.
pub proof fn lemma_index_sum_grows(s: Seq<ChunkEntry>, i: int)
    requires
        0 <= i <= s.len(),
    ensures
        0 <= index_sum(s.take(i)) <= index_sum(s),
    decreases s.len(),
{
    if i == s.len() {
        assert(s.take(i) =~= s);
        if s.len() > 0 {
            lemma_index_sum_grows(s.drop_last(), s.len() - 1);
            assert(s.drop_last().take(s.len() - 1) =~= s.drop_last());
        }
    } else {
        lemma_index_sum_grows(s.drop_last(), i);
        assert(s.drop_last().take(i) =~= s.take(i));
    }
}

/// A part of some chunks has room for no more vertices than all of them.
pub proof fn lemma_vertex_sum_grows(s: Seq<ChunkEntry>, stride: int, i: int)
    requires
        0 <= i <= s.len(),
        stride > 0,
    ensures
        0 <= vertex_sum(s.take(i), stride) <= vertex_sum(s, stride),
    decreases s.len(),
{
    if s.len() > 0 {
        vstd::arithmetic::div_mod::lemma_div_pos_is_pos(s.last().draw.vertex_bytes as int, stride);
    }
    if i == s.len() {
        assert(s.take(i) =~= s);
        if s.len() > 0 {
            lemma_vertex_sum_grows(s.drop_last(), stride, s.len() - 1);
            assert(s.drop_last().take(s.len() - 1) =~= s.drop_last());
        }
    } else {
        lemma_vertex_sum_grows(s.drop_last(), stride, i);
        assert(s.drop_last().take(i) =~= s.take(i));
    }
}

} // verus!
