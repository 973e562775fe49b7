//! Avatars of the peers: meshes shared by name, one entry per peer, and which
//! mesh each peer is drawn with.

use vstd::prelude::*;

use crate::preview::mode::same_text;

verus! {

/// A mesh under a name; the name `""` is that of the default.
#[derive(Debug)]
pub struct AvatarMeshData {
    pub name: String,
    pub index_count: u32,
}

/// A peer and the name of its mesh.
#[derive(Debug)]
pub struct AvatarPeerEntry {
    pub peer_id: u32,
    pub mesh_name: String,
}

/// The meshes and the peers.
#[derive(Debug)]
pub struct Avatars {
    pub meshes: Vec<AvatarMeshData>,
    pub peers: Vec<AvatarPeerEntry>,
}

/// One avatar to draw: a peer and a mesh, by position.
#[derive(Clone, Copy, Debug, PartialEq, Eq, Structural)]
pub struct AvatarDraw {
    pub peer: usize,
    pub mesh: usize,
}

/// The first mesh of a name is at `k`; there is none if `k` is the number of meshes.
pub open spec fn mesh_found(s: Seq<AvatarMeshData>, name: Seq<char>, k: int) -> bool {
    &&& 0 <= k <= s.len()
    &&& k < s.len() ==> s[k].name@ == name
    &&& forall|i: int| 0 <= i < k ==> (#[trigger] s[i]).name@ != name
}

/// Place of the first mesh of a name.
pub open spec fn mesh_at(s: Seq<AvatarMeshData>, name: Seq<char>) -> int {
    choose|k: int| mesh_found(s, name, k)
}

/// No name occurs twice.
pub open spec fn names_distinct(s: Seq<AvatarMeshData>) -> bool {
    forall|i: int, j: int|
        0 <= i < s.len() && 0 <= j < s.len() && (#[trigger] s[i]).name@ == (
        #[trigger] s[j]).name@ ==> i == j
}

/// The first entry of a peer is at `k`; there is none if `k` is the number of entries.
pub open spec fn peer_found(s: Seq<AvatarPeerEntry>, id: u32, k: int) -> bool {
    &&& 0 <= k <= s.len()
    &&& k < s.len() ==> s[k].peer_id == id
    &&& forall|i: int| 0 <= i < k ==> (#[trigger] s[i]).peer_id != id
}

/// Place of the first entry of a peer.
pub open spec fn peer_at(s: Seq<AvatarPeerEntry>, id: u32) -> int {
    choose|k: int| peer_found(s, id, k)
}

/// The mesh a peer is drawn with: that of its name, or the default.
pub open spec fn drawn_mesh(meshes: Seq<AvatarMeshData>, name: Seq<char>) -> int {
    if mesh_at(meshes, name) < meshes.len() {
        mesh_at(meshes, name)
    } else {
        mesh_at(meshes, ""@)
    }
}

/// The draws of the first `n` peers, in order. A peer without a mesh, or whose
/// mesh has no index, is left out.
pub open spec fn avatar_draws(
    meshes: Seq<AvatarMeshData>,
    peers: Seq<AvatarPeerEntry>,
    n: int,
) -> Seq<AvatarDraw>
    decreases n,
{
    if n <= 0 {
        Seq::empty()
    } else {
        let before = avatar_draws(meshes, peers, n - 1);
        let m = drawn_mesh(meshes, peers[n - 1].mesh_name@);
        if m < meshes.len() && meshes[m].index_count > 0 {
            before.push(AvatarDraw { peer: (n - 1) as usize, mesh: m as usize })
        } else {
            before
        }
    }
}

/// The entries of the other peers, in order.
pub open spec fn without_peer(s: Seq<AvatarPeerEntry>, id: u32) -> Seq<AvatarPeerEntry>
    decreases s.len(),
{
    if s.len() == 0 {
        s
    } else if s.last().peer_id == id {
        without_peer(s.drop_last(), id)
    } else {
        without_peer(s.drop_last(), id).push(s.last())
    }
}

pub(crate) proof fn lemma_mesh_found(s: Seq<AvatarMeshData>, name: Seq<char>, k: int)
    requires
        mesh_found(s, name, k),
    ensures
        mesh_at(s, name) == k,
{
    let m = mesh_at(s, name);
    assert(mesh_found(s, name, m));
    if m < k {
        assert(s[m].name@ == name);
    } else if k < m {
        assert(s[k].name@ == name);
    }
}

proof fn lemma_peer_found(s: Seq<AvatarPeerEntry>, id: u32, k: int)
    requires
        peer_found(s, id, k),
    ensures
        peer_at(s, id) == k,
{
    let m = peer_at(s, id);
    assert(peer_found(s, id, m));
    if m < k {
        assert(s[m].peer_id == id);
    } else if k < m {
        assert(s[k].peer_id == id);
    }
}

impl Avatars {
    /// Neither meshes nor peers.
    pub fn new() -> (r: Avatars)
        ensures
            r.meshes@.len() == 0,
            r.peers@.len() == 0,
    {
        Avatars { meshes: Vec::new(), peers: Vec::new() }
    }

    fn find_mesh(&self, name: &str) -> (at: usize)
        ensures
            mesh_found(self.meshes@, name@, at as int),
            at == mesh_at(self.meshes@, name@),
    {
        let n: usize = self.meshes.len();
        let mut at: usize = 0;
        while at < n
            invariant
                at <= n,
                n == self.meshes@.len(),
                forall|k: int| 0 <= k < at ==> (#[trigger] self.meshes@[k]).name@ != name@,
            decreases n - at,
        {
            if same_text(self.meshes[at].name.as_str(), name) {
                proof {
                    lemma_mesh_found(self.meshes@, name@, at as int);
                }
                return at;
            }
            at += 1;
        }
        proof {
            lemma_mesh_found(self.meshes@, name@, n as int);
        }
        n
    }

    fn find_peer(&self, id: u32) -> (at: usize)
        ensures
            peer_found(self.peers@, id, at as int),
            at == peer_at(self.peers@, id),
    {
        let n: usize = self.peers.len();
        let mut at: usize = 0;
        while at < n
            invariant
                at <= n,
                n == self.peers@.len(),
                forall|k: int| 0 <= k < at ==> (#[trigger] self.peers@[k]).peer_id != id,
            decreases n - at,
        {
            if self.peers[at].peer_id == id {
                proof {
                    lemma_peer_found(self.peers@, id, at as int);
                }
                return at;
            }
            at += 1;
        }
        proof {
            lemma_peer_found(self.peers@, id, n as int);
        }
        n
    }

    /// Keeps a mesh under a name, unless there is one already. The result says
    /// whether its buffers are to be made.
    pub fn cache_avatar_mesh(&mut self, name: String, indices: usize) -> (new: bool)
        requires
            names_distinct(old(self).meshes@),
        ensures
            names_distinct(final(self).meshes@),
            new == (mesh_at(old(self).meshes@, name@) == old(self).meshes@.len()),
            final(self).meshes@ == (if new {
                old(self).meshes@.push(AvatarMeshData { name, index_count: indices as u32 })
            } else {
                old(self).meshes@
            }),
            final(self).peers@ == old(self).peers@,
    {
        let at = self.find_mesh(name.as_str());
        if at < self.meshes.len() {
            return false;
        }
        let ghost was = self.meshes@;
        self.meshes.push(AvatarMeshData { name, index_count: indices as u32 });
        proof {
            let s = self.meshes@;
            assert forall|i: int, j: int|
                0 <= i < s.len() && 0 <= j < s.len() && (#[trigger] s[i]).name@ == (
                #[trigger] s[j]).name@ implies i == j by {
                if i < was.len() {
                    assert(s[i] == was[i]);
                    assert(was[i].name@ != name@);
                }
                if j < was.len() {
                    assert(s[j] == was[j]);
                    assert(was[j].name@ != name@);
                }
                if i < was.len() && j < was.len() {
                    assert(was[i].name@ == was[j].name@);
                }
            }
        }
        true
    }

    /// Gives a peer the mesh of a name. A peer that is not there yet comes
    /// last. The result says whether it is new.
    pub fn update_avatar_peer(&mut self, peer_id: u32, mesh_name: String) -> (new: bool)
        ensures
            ({
                let k = peer_at(old(self).peers@, peer_id);
                let s = old(self).peers@;
                &&& new == (k == s.len())
                &&& final(self).peers@ == (if new {
                    s.push(AvatarPeerEntry { peer_id, mesh_name })
                } else {
                    s.update(k, (AvatarPeerEntry { peer_id, mesh_name }))
                })
            }),
            final(self).meshes@ == old(self).meshes@,
    {
        let at = self.find_peer(peer_id);
        if at < self.peers.len() {
            self.peers.set(at, AvatarPeerEntry { peer_id, mesh_name });
            false
        } else {
            self.peers.push(AvatarPeerEntry { peer_id, mesh_name });
            true
        }
    }

    /// Takes a peer away.
    pub fn remove_avatar_peer(&mut self, peer_id: u32)
        ensures
            final(self).peers@ == without_peer(old(self).peers@, peer_id),
            final(self).meshes@ == old(self).meshes@,
    {
        let ghost all = self.peers@;
        let mut back: Vec<AvatarPeerEntry> = Vec::new();
        let mut rest: Vec<AvatarPeerEntry> = Vec::new();
        rest.append(&mut self.peers);
        while rest.len() > 0
            invariant
                without_peer(all, peer_id) == without_peer(rest@, peer_id) + back@.reverse(),
            decreases rest@.len(),
        {
            let ghost before = rest@;
            let ghost b0 = back@;
            match rest.pop() {
                Some(p) => {
                    assert(rest@ =~= before.drop_last());
                    if p.peer_id != peer_id {
                        back.push(p);
                        assert(back@.reverse() =~= seq![p] + b0.reverse());
                        assert(without_peer(before, peer_id) + b0.reverse() =~= without_peer(
                            rest@,
                            peer_id,
                        ) + back@.reverse());
                    }
                },
                None => {},
            }
        }
        assert(without_peer(all, peer_id) =~= back@.reverse());
        let ghost turned = back@.reverse();
        let mut out: Vec<AvatarPeerEntry> = Vec::new();
        while back.len() > 0
            invariant
                turned == out@ + back@.reverse(),
            decreases back@.len(),
        {
            let ghost k0 = back@;
            let ghost o0 = out@;
            match back.pop() {
                Some(p) => {
                    out.push(p);
                    assert(k0.reverse() =~= seq![p] + back@.reverse());
                    assert(out@ + back@.reverse() =~= o0 + k0.reverse());
                },
                None => {},
            }
        }
        assert(out@ =~= turned);
        self.peers = out;
    }

    /// Takes every peer away; the meshes stay.
    pub fn clear_avatar_peers(&mut self)
        ensures
            final(self).peers@.len() == 0,
            final(self).meshes@ == old(self).meshes@,
    {
        self.peers.clear();
    }

    /// The avatars to draw, in the order of the peers.
    pub fn render_avatars(&self) -> (r: Vec<AvatarDraw>)
        ensures
            r@ == avatar_draws(self.meshes@, self.peers@, self.peers@.len() as int),
    {
        let n: usize = self.peers.len();
        let fallback = self.find_mesh("");
        let mut r: Vec<AvatarDraw> = Vec::new();
        let mut i: usize = 0;
        while i < n
            invariant
                i <= n,
                n == self.peers@.len(),
                fallback == mesh_at(self.meshes@, ""@),
                r@ == avatar_draws(self.meshes@, self.peers@, i as int),
            decreases n - i,
        {
            let own = self.find_mesh(self.peers[i].mesh_name.as_str());
            let m: usize = if own < self.meshes.len() {
                own
            } else {
                fallback
            };
            if m < self.meshes.len() && self.meshes[m].index_count > 0 {
                r.push(AvatarDraw { peer: i, mesh: m });
            }
            i += 1;
        }
        r
    }
}

/// After a peer is removed, no entry of it is left.
pub proof fn law_removed_peer_is_gone(s: Seq<AvatarPeerEntry>, id: u32)
    ensures
        forall|i: int|
            0 <= i < without_peer(s, id).len() ==> (#[trigger] without_peer(s, id)[i]).peer_id
                != id,
        without_peer(without_peer(s, id), id) == without_peer(s, id),
    decreases s.len(),
{
    if s.len() > 0 {
        law_removed_peer_is_gone(s.drop_last(), id);
        if s.last().peer_id != id {
            let w = without_peer(s, id);
            assert(w.drop_last() =~= without_peer(s.drop_last(), id));
        }
    }
}

} // verus!
