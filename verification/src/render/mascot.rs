//! Mascots of the start screen and its logo: which are there, which are seen,
//! and whether the logo is on its way back to its rest pose.
//!
//! Angles, times and places are single precision numbers, kept as bit patterns
//! and computed outside.

use vstd::prelude::*;

verus! {

/// Bit pattern of two hundred, the side of a mascot before it is placed.
pub const START_SIDE: u32 = 0x4348_0000;

/// A mascot.
#[derive(Clone, Copy, Debug)]
pub struct MascotEntry {
    pub id: u32,
    pub index_count: u32,
    pub anim_t: u32,
    pub screen_rect: [u32; 4],
    pub visible: bool,
}

/// The mascots, in the order in which they are drawn.
#[derive(Debug)]
pub struct Mascots {
    pub entries: Vec<MascotEntry>,
}

/// The first mascot of an id is at `k`; there is none if `k` is the number of mascots.
pub open spec fn mascot_found(s: Seq<MascotEntry>, id: u32, k: int) -> bool {
    &&& 0 <= k <= s.len()
    &&& k < s.len() ==> s[k].id == id
    &&& forall|i: int| 0 <= i < k ==> (#[trigger] s[i]).id != id
}

/// Place of the first mascot of an id.
pub open spec fn mascot_at(s: Seq<MascotEntry>, id: u32) -> int {
    choose|k: int| mascot_found(s, id, k)
}

/// A mascot that has a mesh and is not placed or shown yet.
pub open spec fn new_mascot(id: u32, index_count: u32) -> MascotEntry {
    MascotEntry {
        id,
        index_count,
        anim_t: 0,
        screen_rect: [0u32, 0u32, START_SIDE, START_SIDE],
        visible: false,
    }
}

/// Positions of the visible ones among the first `n` mascots.
pub open spec fn visible_before(s: Seq<MascotEntry>, n: int) -> Seq<usize>
    decreases n,
{
    if n <= 0 {
        Seq::empty()
    } else if s[n - 1].visible {
        visible_before(s, n - 1).push((n - 1) as usize)
    } else {
        visible_before(s, n - 1)
    }
}

/// Some mascot is visible.
pub open spec fn any_visible(s: Seq<MascotEntry>) -> bool {
    exists|i: int| 0 <= i < s.len() && (#[trigger] s[i]).visible
}

proof fn lemma_found(s: Seq<MascotEntry>, id: u32, k: int)
    requires
        mascot_found(s, id, k),
    ensures
        mascot_at(s, id) == k,
{
    let m = mascot_at(s, id);
    assert(mascot_found(s, id, m));
    if m < k {
        assert(s[m].id == id);
    } else if k < m {
        assert(s[k].id == id);
    }
}

impl Mascots {
    /// No mascots.
    pub fn new() -> (r: Mascots)
        ensures
            r.entries@.len() == 0,
    {
        Mascots { entries: Vec::new() }
    }

    fn find(&self, id: u32) -> (at: usize)
        ensures
            mascot_found(self.entries@, id, at as int),
            at == mascot_at(self.entries@, id),
    {
        let n: usize = self.entries.len();
        let mut at: usize = 0;
        while at < n
            invariant
                at <= n,
                n == self.entries@.len(),
                forall|k: int| 0 <= k < at ==> (#[trigger] self.entries@[k]).id != id,
            decreases n - at,
        {
            if self.entries[at].id == id {
                proof {
                    lemma_found(self.entries@, id, at as int);
                }
                return at;
            }
            at += 1;
        }
        proof {
            lemma_found(self.entries@, id, n as int);
        }
        n
    }

    /// Gives a mascot its mesh. One that is not there yet comes last, hidden.
    /// The result says whether it is new.
    pub fn load_mascot_mesh(&mut self, id: u32, indices: usize) -> (new: bool)
        ensures
            ({
                let k = mascot_at(old(self).entries@, id);
                let s = old(self).entries@;
                &&& new == (k == s.len())
                &&& final(self).entries@ == (if new {
                    s.push(new_mascot(id, indices as u32))
                } else {
                    s.update(k, (MascotEntry { index_count: indices as u32, ..s[k] }))
                })
            }),
    {
        let at = self.find(id);
        let ghost was = self.entries@;
        if at < self.entries.len() {
            let mut e = self.entries[at];
            e.index_count = indices as u32;
            self.entries.set(at, e);
            false
        } else {
            self.entries.push(
                MascotEntry {
                    id,
                    index_count: indices as u32,
                    anim_t: 0,
                    screen_rect: [0, 0, START_SIDE, START_SIDE],
                    visible: false,
                },
            );
            assert(self.entries@.last().screen_rect@ =~= new_mascot(
                id,
                indices as u32,
            ).screen_rect@);
            assert(self.entries@ =~= was.push(new_mascot(id, indices as u32)));
            true
        }
    }

    /// Places a mascot.
    pub fn set_mascot_screen_rect(&mut self, id: u32, rect: [u32; 4])
        ensures
            ({
                let k = mascot_at(old(self).entries@, id);
                let s = old(self).entries@;
                final(self).entries@ == (if k < s.len() {
                    s.update(k, (MascotEntry { screen_rect: rect, ..s[k] }))
                } else {
                    s
                })
            }),
    {
        let at = self.find(id);
        if at < self.entries.len() {
            let mut e = self.entries[at];
            e.screen_rect = rect;
            self.entries.set(at, e);
        }
    }

    /// Shows or hides a mascot.
    pub fn set_mascot_visible(&mut self, id: u32, visible: bool)
        ensures
            ({
                let k = mascot_at(old(self).entries@, id);
                let s = old(self).entries@;
                final(self).entries@ == (if k < s.len() {
                    s.update(k, (MascotEntry { visible, ..s[k] }))
                } else {
                    s
                })
            }),
    {
        let at = self.find(id);
        if at < self.entries.len() {
            let mut e = self.entries[at];
            e.visible = visible;
            self.entries.set(at, e);
        }
    }

    /// Whether some mascot is visible.
    pub fn any_mascot_visible(&self) -> (r: bool)
        ensures
            r == any_visible(self.entries@),
    {
        let n: usize = self.entries.len();
        let mut i: usize = 0;
        while i < n
            invariant
                i <= n,
                n == self.entries@.len(),
                forall|k: int| 0 <= k < i ==> !(#[trigger] self.entries@[k]).visible,
            decreases n - i,
        {
            if self.entries[i].visible {
                assert(self.entries@[i as int].visible);
                return true;
            }
            i += 1;
        }
        false
    }

    /// Moves every mascot, seen or not, to its next phase.
    pub fn advance(&mut self, phases: &[u32])
        requires
            phases@.len() == old(self).entries@.len(),
        ensures
            final(self).entries@ == Seq::new(
                phases@.len(),
                |i: int| MascotEntry { anim_t: phases@[i], ..old(self).entries@[i] },
            ),
    {
        let n: usize = self.entries.len();
        let mut i: usize = 0;
        while i < n
            invariant
                i <= n,
                n == self.entries@.len(),
                n == phases@.len(),
                n == old(self).entries@.len(),
                forall|k: int|
                    0 <= k < i ==> #[trigger] self.entries@[k] == (MascotEntry {
                        anim_t: phases@[k],
                        ..old(self).entries@[k]
                    }),
                forall|k: int|
                    i <= k < n ==> #[trigger] self.entries@[k] == old(self).entries@[k],
            decreases n - i,
        {
            let mut e = self.entries[i];
            e.anim_t = phases[i];
            self.entries.set(i, e);
            i += 1;
        }
        assert(self.entries@ =~= Seq::new(
            phases@.len(),
            |i: int| MascotEntry { anim_t: phases@[i], ..old(self).entries@[i] },
        ));
    }

    /// Positions of the mascots that are drawn, in order; none unless the
    /// surface takes them.
    pub fn render_mascots(&self, takes_sdr: bool) -> (r: Vec<usize>)
        ensures
            r@ == (if takes_sdr {
                visible_before(self.entries@, self.entries@.len() as int)
            } else {
                Seq::empty()
            }),
    {
        let mut r: Vec<usize> = Vec::new();
        if !takes_sdr {
            return r;
        }
        let n: usize = self.entries.len();
        let mut i: usize = 0;
        while i < n
            invariant
                i <= n,
                n == self.entries@.len(),
                r@ == visible_before(self.entries@, i as int),
            decreases n - i,
        {
            if self.entries[i].visible {
                r.push(i);
            }
            i += 1;
        }
        r
    }
}

/// A mascot is drawn exactly if it is visible.
pub proof fn law_visible_mascots_are_drawn(s: Seq<MascotEntry>, n: int, k: int)
    requires
        0 <= k < n <= s.len(),
        n <= usize::MAX,
    ensures
        visible_before(s, n).contains(k as usize) == s[k].visible,
    decreases n,
{
    lemma_drawn_positions(s, n - 1);
    let before = visible_before(s, n - 1);
    let all = visible_before(s, n);
    if k == n - 1 {
        if s[k].visible {
            assert(all.last() == k as usize);
            assert(all.contains(k as usize));
        } else {
            assert(!before.contains(k as usize));
        }
    } else {
        law_visible_mascots_are_drawn(s, n - 1, k);
        if s[n - 1].visible {
            if before.contains(k as usize) {
                let i = choose|i: int| 0 <= i < before.len() && before[i] == k as usize;
                assert(all[i] == k as usize);
            }
            if all.contains(k as usize) {
                let i = choose|i: int| 0 <= i < all.len() && all[i] == k as usize;
                assert(i < before.len());
                assert(before[i] == k as usize);
            }
        }
    }
}

proof fn lemma_drawn_positions(s: Seq<MascotEntry>, n: int)
    requires
        n <= s.len(),
        n <= usize::MAX,
    ensures
        forall|i: int|
            0 <= i < visible_before(s, n).len() ==> (#[trigger] visible_before(s, n)[i]) < n,
    decreases n,
{
    if n > 0 {
        lemma_drawn_positions(s, n - 1);
        let before = visible_before(s, n - 1);
        let all = visible_before(s, n);
        assert forall|i: int| 0 <= i < all.len() implies (#[trigger] all[i]) < n by {
            if i < before.len() {
                assert(all[i] == before[i]);
            }
        }
    }
}

/// What the logo does.
#[derive(Clone, Copy, Debug, PartialEq, Eq, Structural)]
pub struct LogoState {
    pub index_count: u32,
    pub visible: bool,
    /// The pose moves back towards rest, a little each frame.
    pub returning_to_rest: bool,
    /// The pointer is over the logo.
    pub mouse_active: bool,
}

/// The logo, once it was loaded.
#[derive(Clone, Copy, Debug, PartialEq, Eq, Structural)]
pub struct LogoOverlay {
    pub logo: Option<LogoState>,
}

impl LogoOverlay {
    /// No logo yet.
    pub fn new() -> (r: LogoOverlay)
        ensures
            r.logo is None,
    {
        LogoOverlay { logo: None }
    }

    /// Gives the logo its mesh, at rest. A new logo is hidden. The result says
    /// whether it is new.
    pub fn load_logo_mesh(&mut self, indices: usize) -> (new: bool)
        ensures
            new == (old(self).logo is None),
            final(self).logo == Some(
                if new {
                    LogoState {
                        index_count: indices as u32,
                        visible: false,
                        returning_to_rest: false,
                        mouse_active: false,
                    }
                } else {
                    LogoState {
                        index_count: indices as u32,
                        returning_to_rest: false,
                        ..old(self).logo->0
                    }
                },
            ),
    {
        match self.logo {
            Some(l) => {
                self.logo = Some(
                    LogoState {
                        index_count: indices as u32,
                        visible: l.visible,
                        returning_to_rest: false,
                        mouse_active: l.mouse_active,
                    },
                );
                false
            },
            None => {
                self.logo = Some(
                    LogoState {
                        index_count: indices as u32,
                        visible: false,
                        returning_to_rest: false,
                        mouse_active: false,
                    },
                );
                true
            },
        }
    }

    /// Whether the logo can be seen.
    pub fn logo_overlay_visible(&self) -> (r: bool)
        ensures
            r == (self.logo is Some && (self.logo->0).visible),
    {
        match self.logo {
            Some(l) => l.visible,
            None => false,
        }
    }

    /// Whether the logo is drawn: where it can be seen and the surface takes it.
    pub fn render_logo_overlay(&self, takes_sdr: bool) -> (r: bool)
        ensures
            r == (takes_sdr && self.logo is Some && (self.logo->0).visible),
    {
        takes_sdr && self.logo_overlay_visible()
    }
}

impl LogoState {
    /// A drag takes over from the way back to rest.
    pub fn rotate_drag(&mut self)
        ensures
            *final(self) == (LogoState { returning_to_rest: false, ..*old(self) }),
    {
        self.returning_to_rest = false;
    }

    /// Whether hovering nudges the pose: not on the way back to rest.
    pub fn hover_parallax(&self) -> (r: bool)
        ensures
            r == !self.returning_to_rest,
    {
        !self.returning_to_rest
    }

    /// Begins the way back to rest.
    pub fn reset_orbit(&mut self)
        ensures
            *final(self) == (LogoState { returning_to_rest: true, ..*old(self) }),
    {
        self.returning_to_rest = true;
    }

    /// A frame on the way back to rest; `arrived` says that the pose came close
    /// enough. The result says whether the pose moved in this frame.
    pub fn tick_return_to_rest(&mut self, arrived: bool) -> (moved: bool)
        ensures
            moved == old(self).returning_to_rest,
            *final(self) == (LogoState {
                returning_to_rest: old(self).returning_to_rest && !arrived,
                ..*old(self)
            }),
    {
        let moved = self.returning_to_rest;
        if arrived {
            self.returning_to_rest = false;
        }
        moved
    }

    /// The pointer is over the logo.
    pub fn update_mouse_ndc(&mut self)
        ensures
            *final(self) == (LogoState { mouse_active: true, ..*old(self) }),
    {
        self.mouse_active = true;
    }

    /// The pointer left the logo.
    pub fn clear_mouse_ndc(&mut self)
        ensures
            *final(self) == (LogoState { mouse_active: false, ..*old(self) }),
    {
        self.mouse_active = false;
    }
}

} // verus!
