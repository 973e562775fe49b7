//! Speech bubbles: pages turned by clicks, a shake at the end, and the ids of
//! those that are gone.
//!
//! The time a bubble has been shaking is a single precision number, kept here as
//! its bit pattern; it is advanced outside and handed back.

use vstd::prelude::*;

verus! {

/// What a bubble does.
#[derive(Clone, Copy, Debug, PartialEq, Eq, Structural)]
pub enum BubbleState {
    /// Shows a page.
    Active,
    /// Shakes, for the time with this bit pattern so far.
    Shaking { shake_t: u32 },
    /// Gone; its id is still to be told.
    Dismissed,
}

/// Place of a bubble and of the tip of its tail, as bit patterns.
#[derive(Clone, Copy, Debug, PartialEq, Eq)]
pub struct BubblePlace {
    pub screen_rect: [u32; 4],
    pub tail_tip: [u32; 2],
}

/// A speech bubble.
#[derive(Debug)]
pub struct SpeechBubble {
    pub id: u32,
    pub pages: Vec<String>,
    pub current_page: usize,
    pub place: BubblePlace,
    pub state: BubbleState,
}

/// Time of a shaking bubble after a tick, and whether it has shaken long enough.
#[derive(Clone, Copy, Debug, PartialEq, Eq, Structural)]
pub struct ShakeTick {
    pub shake_t: u32,
    pub done: bool,
}

/// The bubbles, and the ids that are still to be told.
#[derive(Debug)]
pub struct SpeechBubbles {
    pub bubbles: Vec<SpeechBubble>,
    pub pending_dismissed: Vec<u32>,
}

/// First bubble of an id, if there is one; the number of bubbles otherwise.
pub open spec fn first_of(s: Seq<SpeechBubble>, id: u32) -> int
    decreases s.len(),
{
    if s.len() == 0 {
        0
    } else {
        let k = first_of(s.drop_last(), id);
        if k < s.len() - 1 {
            k
        } else if s.last().id == id {
            s.len() - 1
        } else {
            s.len() as int
        }
    }
}

/// At most one bubble for each id.
pub open spec fn ids_distinct(s: Seq<SpeechBubble>) -> bool {
    forall|i: int, j: int|
        0 <= i < s.len() && 0 <= j < s.len() && (#[trigger] s[i]).id == (#[trigger] s[j]).id ==> i
            == j
}

/// The bubbles of other ids, in order.
pub open spec fn without_id(s: Seq<SpeechBubble>, id: u32) -> Seq<SpeechBubble>
    decreases s.len(),
{
    if s.len() == 0 {
        s
    } else if s.last().id == id {
        without_id(s.drop_last(), id)
    } else {
        without_id(s.drop_last(), id).push(s.last())
    }
}

/// A new bubble: its first page, at its place.
pub open spec fn fresh(id: u32, pages: Vec<String>, place: BubblePlace) -> SpeechBubble {
    SpeechBubble { id, pages, current_page: 0, place, state: BubbleState::Active }
}

/// A click turns the page of the bubble: it shows a page, and not the last one.
pub open spec fn turns_page(b: SpeechBubble) -> bool {
    b.state == BubbleState::Active && b.current_page + 1 < b.pages@.len()
}

/// A bubble after a click.
pub open spec fn clicked(b: SpeechBubble) -> SpeechBubble {
    match b.state {
        BubbleState::Active => if b.current_page + 1 < b.pages@.len() {
            SpeechBubble { current_page: (b.current_page + 1) as usize, ..b }
        } else {
            SpeechBubble { state: BubbleState::Shaking { shake_t: 0 }, ..b }
        },
        BubbleState::Shaking { .. } => SpeechBubble { state: BubbleState::Dismissed, ..b },
        BubbleState::Dismissed => b,
    }
}

/// What a bubble does after a tick.
pub open spec fn ticked(state: BubbleState, t: ShakeTick) -> BubbleState {
    match state {
        BubbleState::Shaking { .. } => if t.done {
            BubbleState::Dismissed
        } else {
            BubbleState::Shaking { shake_t: t.shake_t }
        },
        _ => state,
    }
}

/// The bubbles that a tick leaves, in order, at their new times.
pub open spec fn kept_by(s: Seq<SpeechBubble>, t: Seq<ShakeTick>) -> Seq<SpeechBubble>
    decreases s.len(),
{
    if s.len() == 0 {
        s
    } else {
        let before = kept_by(s.drop_last(), t);
        let state = ticked(s.last().state, t[s.len() - 1]);
        if state == BubbleState::Dismissed {
            before
        } else {
            before.push(SpeechBubble { state, ..s.last() })
        }
    }
}

/// The ids of the bubbles that a tick finds or makes dismissed, in order.
pub open spec fn dismissed_by(s: Seq<SpeechBubble>, t: Seq<ShakeTick>) -> Seq<u32>
    decreases s.len(),
{
    if s.len() == 0 {
        Seq::empty()
    } else {
        let before = dismissed_by(s.drop_last(), t);
        if ticked(s.last().state, t[s.len() - 1]) == BubbleState::Dismissed {
            before.push(s.last().id)
        } else {
            before
        }
    }
}

/// Some bubble can be seen.
pub open spec fn any_visible(s: Seq<SpeechBubble>) -> bool {
    exists|i: int| 0 <= i < s.len() && (#[trigger] s[i]).state != BubbleState::Dismissed
}

proof fn lemma_first_of(s: Seq<SpeechBubble>, id: u32)
    ensures
        0 <= first_of(s, id) <= s.len(),
        first_of(s, id) < s.len() ==> s[first_of(s, id)].id == id,
        forall|i: int| 0 <= i < first_of(s, id) ==> (#[trigger] s[i]).id != id,
    decreases s.len(),
{
    if s.len() > 0 {
        let d = s.drop_last();
        lemma_first_of(d, id);
        assert forall|i: int| 0 <= i < first_of(s, id) implies (#[trigger] s[i]).id != id by {
            if i < d.len() {
                assert(s[i] == d[i]);
            }
        }
    }
}

/// An index with the id and none before it is the first.
proof fn lemma_is_first(s: Seq<SpeechBubble>, id: u32, k: int)
    requires
        0 <= k <= s.len(),
        k < s.len() ==> s[k].id == id,
        forall|i: int| 0 <= i < k ==> (#[trigger] s[i]).id != id,
    ensures
        first_of(s, id) == k,
{
    lemma_first_of(s, id);
    let f = first_of(s, id);
    if f < k {
        assert(s[f].id == id);
    } else if k < f {
        assert(s[k].id == id);
    }
}

impl SpeechBubbles {
    /// No bubbles.
    pub fn new() -> (r: SpeechBubbles)
        ensures
            r.bubbles@.len() == 0,
            r.pending_dismissed@.len() == 0,
    {
        SpeechBubbles { bubbles: Vec::new(), pending_dismissed: Vec::new() }
    }

    /// Whether some bubble can be seen.
    pub fn has_visible_speech_bubbles(&self) -> (r: bool)
        ensures
            r == any_visible(self.bubbles@),
    {
        let n: usize = self.bubbles.len();
        let mut i: usize = 0;
        while i < n
            invariant
                i <= n,
                n == self.bubbles@.len(),
                forall|k: int|
                    0 <= k < i ==> (#[trigger] self.bubbles@[k]).state == BubbleState::Dismissed,
            decreases n - i,
        {
            let visible = match self.bubbles[i].state {
                BubbleState::Dismissed => false,
                _ => true,
            };
            if visible {
                assert(self.bubbles@[i as int].state != BubbleState::Dismissed);
                return true;
            }
            i += 1;
        }
        false
    }

    fn find(&self, id: u32) -> (at: usize)
        ensures
            at == first_of(self.bubbles@, id),
            at <= self.bubbles@.len(),
    {
        let n: usize = self.bubbles.len();
        let mut at: usize = 0;
        while at < n
            invariant
                at <= n,
                n == self.bubbles@.len(),
                forall|k: int| 0 <= k < at ==> (#[trigger] self.bubbles@[k]).id != id,
            decreases n - at,
        {
            if self.bubbles[at].id == id {
                proof {
                    lemma_is_first(self.bubbles@, id, at as int);
                }
                return at;
            }
            at += 1;
        }
        proof {
            lemma_is_first(self.bubbles@, id, n as int);
        }
        n
    }

    /// Shows a bubble, in place of any with its id, on top of the others.
    pub fn show_speech_bubble(&mut self, id: u32, pages: Vec<String>, place: BubblePlace)
        ensures
            final(self).bubbles@ == without_id(old(self).bubbles@, id).push(
                fresh(id, pages, place),
            ),
            final(self).pending_dismissed@ == old(self).pending_dismissed@,
    {
        let mut kept: Vec<SpeechBubble> = Vec::new();
        let mut rest: Vec<SpeechBubble> = Vec::new();
        rest.append(&mut self.bubbles);
        let ghost all = rest@;
        // Taken from the end and turned round, so that each is moved.
        while rest.len() > 0
            invariant
                kept@.reverse() == without_id(all, id).subrange(
                    without_id(rest@, id).len() as int,
                    without_id(all, id).len() as int,
                ),
                without_id(rest@, id).len() <= without_id(all, id).len(),
                without_id(rest@, id) == without_id(all, id).subrange(
                    0,
                    without_id(rest@, id).len() as int,
                ),
            decreases rest@.len(),
        {
            let ghost before = rest@;
            let ghost had = kept@;
            match rest.pop() {
                Some(b) => {
                    proof {
                        assert(rest@ =~= before.drop_last());
                        assert(b == before.last());
                    }
                    if b.id != id {
                        kept.push(b);
                        proof {
                            let w = without_id(all, id);
                            let m = without_id(rest@, id).len() as int;
                            assert(without_id(before, id) == without_id(rest@, id).push(b));
                            assert(w[m] == b) by {
                                assert(w.subrange(0, m + 1)[m] == b);
                            }
                            assert(without_id(rest@, id) =~= w.subrange(0, m)) by {
                                assert(w.subrange(0, m + 1).subrange(0, m) =~= w.subrange(0, m));
                                assert(without_id(before, id).subrange(0, m) =~= without_id(
                                    rest@,
                                    id,
                                ));
                            }
                            assert(kept@.reverse() =~= seq![b] + had.reverse());
                            assert(w.subrange(m, w.len() as int) =~= seq![b] + w.subrange(
                                m + 1,
                                w.len() as int,
                            ));
                        }
                    }
                },
                None => {},
            }
        }
        let ghost turned = kept@.reverse();
        assert(without_id(rest@, id).len() == 0);
        assert(turned =~= without_id(all, id));
        let mut out: Vec<SpeechBubble> = Vec::new();
        while kept.len() > 0
            invariant
                turned == out@ + kept@.reverse(),
            decreases kept@.len(),
        {
            let ghost k0 = kept@;
            let ghost o0 = out@;
            match kept.pop() {
                Some(b) => {
                    out.push(b);
                    assert(k0.reverse() =~= seq![b] + kept@.reverse());
                    assert(out@ + kept@.reverse() =~= o0 + k0.reverse());
                },
                None => {},
            }
        }
        assert(out@ =~= turned);
        out.push(
            SpeechBubble { id, pages, current_page: 0, place, state: BubbleState::Active },
        );
        self.bubbles = out;
    }

    /// A click on a bubble turns the page, or makes it shake after the last
    /// page, or dismisses it while it shakes. The result says whether it turned
    /// the page.
    pub fn click_speech_bubble(&mut self, id: u32) -> (r: bool)
        ensures
            ({
                let k = first_of(old(self).bubbles@, id);
                if k < old(self).bubbles@.len() {
                    &&& r == turns_page(old(self).bubbles@[k])
                    &&& final(self).bubbles@ == old(self).bubbles@.update(
                        k,
                        clicked(old(self).bubbles@[k]),
                    )
                } else {
                    !r && final(self).bubbles@ == old(self).bubbles@
                }
            }),
            final(self).pending_dismissed@ == old(self).pending_dismissed@,
    {
        let at = self.find(id);
        proof {
            lemma_first_of(self.bubbles@, id);
        }
        if at >= self.bubbles.len() {
            return false;
        }
        let ghost was = self.bubbles@;
        let r = match self.bubbles[at].state {
            BubbleState::Active => {
                let page: usize = self.bubbles[at].current_page;
                let pages: usize = self.bubbles[at].pages.len();
                if page < pages && page + 1 < pages {
                    self.bubbles[at].current_page = page + 1;
                    true
                } else {
                    self.bubbles[at].state = BubbleState::Shaking { shake_t: 0 };
                    false
                }
            },
            BubbleState::Shaking { .. } => {
                self.bubbles[at].state = BubbleState::Dismissed;
                false
            },
            BubbleState::Dismissed => false,
        };
        assert(self.bubbles@ =~= was.update(at as int, clicked(was[at as int])));
        r
    }

    /// Moves a bubble; its page and what it does stay.
    pub fn reposition_speech_bubble(&mut self, id: u32, place: BubblePlace)
        ensures
            ({
                let k = first_of(old(self).bubbles@, id);
                final(self).bubbles@ == (if k < old(self).bubbles@.len() {
                    old(self).bubbles@.update(k, (SpeechBubble { place, ..old(self).bubbles@[k] }))
                } else {
                    old(self).bubbles@
                })
            }),
            final(self).pending_dismissed@ == old(self).pending_dismissed@,
    {
        let at = self.find(id);
        proof {
            lemma_first_of(self.bubbles@, id);
        }
        if at < self.bubbles.len() {
            let ghost was = self.bubbles@;
            self.bubbles[at].place = place;
            assert(self.bubbles@ =~= was.update(
                at as int,
                SpeechBubble { place, ..was[at as int] },
            ));
        }
    }

    /// Dismisses a bubble without shaking.
    pub fn dismiss_speech_bubble(&mut self, id: u32)
        ensures
            ({
                let k = first_of(old(self).bubbles@, id);
                final(self).bubbles@ == (if k < old(self).bubbles@.len() {
                    old(self).bubbles@.update(
                        k,
                        (SpeechBubble { state: BubbleState::Dismissed, ..old(self).bubbles@[k] }),
                    )
                } else {
                    old(self).bubbles@
                })
            }),
            final(self).pending_dismissed@ == old(self).pending_dismissed@,
    {
        let at = self.find(id);
        proof {
            lemma_first_of(self.bubbles@, id);
        }
        if at < self.bubbles.len() {
            let ghost was = self.bubbles@;
            self.bubbles[at].state = BubbleState::Dismissed;
            assert(self.bubbles@ =~= was.update(
                at as int,
                SpeechBubble { state: BubbleState::Dismissed, ..was[at as int] },
            ));
        }
    }

    /// Advances the shaking bubbles to the given times, one for each bubble, and
    /// lets the dismissed ones go. Their ids are the result.
    pub fn tick_speech_bubbles(&mut self, times: &[ShakeTick]) -> (gone: Vec<u32>)
        requires
            times@.len() == old(self).bubbles@.len(),
        ensures
            gone@ == dismissed_by(old(self).bubbles@, times@),
            final(self).bubbles@ == kept_by(old(self).bubbles@, times@),
            final(self).pending_dismissed@ == old(self).pending_dismissed@,
    {
        let ghost all = self.bubbles@;
        let mut back: Vec<SpeechBubble> = Vec::new();
        let mut gone_back: Vec<u32> = Vec::new();
        let mut rest: Vec<SpeechBubble> = Vec::new();
        rest.append(&mut self.bubbles);
        while rest.len() > 0
            invariant
                rest@.len() <= all.len(),
                rest@ == all.take(rest@.len() as int),
                times@.len() == all.len(),
                kept_by(all, times@) == kept_by(rest@, times@) + back@.reverse(),
                dismissed_by(all, times@) == dismissed_by(rest@, times@) + gone_back@.reverse(),
            decreases rest@.len(),
        {
            let ghost before = rest@;
            let ghost b0 = back@;
            let ghost g0 = gone_back@;
            match rest.pop() {
                Some(b) => {
                    proof {
                        assert(rest@ =~= before.drop_last());
                        assert(rest@ =~= all.take(rest@.len() as int));
                        assert(b == before.last());
                    }
                    let t = times[rest.len()];
                    let state = match b.state {
                        BubbleState::Shaking { .. } => if t.done {
                            BubbleState::Dismissed
                        } else {
                            BubbleState::Shaking { shake_t: t.shake_t }
                        },
                        other => other,
                    };
                    assert(state == ticked(b.state, times@[before.len() - 1]));
                    if state == BubbleState::Dismissed {
                        gone_back.push(b.id);
                        assert(gone_back@.reverse() =~= seq![b.id] + g0.reverse());
                        assert(dismissed_by(before, times@) + g0.reverse() =~= dismissed_by(
                            rest@,
                            times@,
                        ) + gone_back@.reverse());
                    } else {
                        let moved = SpeechBubble { state, ..b };
                        back.push(moved);
                        assert(back@.reverse() =~= seq![moved] + b0.reverse());
                        assert(kept_by(before, times@) == kept_by(rest@, times@).push(moved));
                        assert(kept_by(before, times@) + b0.reverse() =~= kept_by(rest@, times@)
                            + back@.reverse());
                    }
                },
                None => {},
            }
        }
        assert(kept_by(rest@, times@).len() == 0);
        assert(kept_by(all, times@) =~= back@.reverse());
        assert(dismissed_by(all, times@) =~= gone_back@.reverse());
        let ghost turned = back@.reverse();
        let mut out: Vec<SpeechBubble> = Vec::new();
        while back.len() > 0
            invariant
                turned == out@ + back@.reverse(),
            decreases back@.len(),
        {
            let ghost k0 = back@;
            let ghost o0 = out@;
            match back.pop() {
                Some(b) => {
                    out.push(b);
                    assert(k0.reverse() =~= seq![b] + back@.reverse());
                    assert(out@ + back@.reverse() =~= o0 + k0.reverse());
                },
                None => {},
            }
        }
        assert(out@ =~= turned);
        self.bubbles = out;
        let ghost turned_ids = gone_back@.reverse();
        let mut gone: Vec<u32> = Vec::new();
        while gone_back.len() > 0
            invariant
                turned_ids == gone@ + gone_back@.reverse(),
            decreases gone_back@.len(),
        {
            let ghost k0 = gone_back@;
            let ghost o0 = gone@;
            match gone_back.pop() {
                Some(b) => {
                    gone.push(b);
                    assert(k0.reverse() =~= seq![b] + gone_back@.reverse());
                    assert(gone@ + gone_back@.reverse() =~= o0 + k0.reverse());
                },
                None => {},
            }
        }
        assert(gone@ =~= turned_ids);
        gone
    }

    /// Advances the bubbles for a frame and remembers the ids that are gone.
    pub fn advance_frame(&mut self, times: &[ShakeTick])
        requires
            times@.len() == old(self).bubbles@.len(),
        ensures
            final(self).bubbles@ == kept_by(old(self).bubbles@, times@),
            final(self).pending_dismissed@ == old(self).pending_dismissed@ + dismissed_by(
                old(self).bubbles@,
                times@,
            ),
    {
        let mut gone = self.tick_speech_bubbles(times);
        self.pending_dismissed.append(&mut gone);
    }
}

/// A page that is shown is one of the pages, however often is clicked, and a click
/// goes one page on exactly where it turns the page.
pub proof fn law_click_stays_on_a_page(b: SpeechBubble)
    requires
        b.current_page < b.pages@.len() <= usize::MAX,
    ensures
        clicked(b).current_page < clicked(b).pages@.len(),
        clicked(b).current_page == b.current_page + (if turns_page(b) {
            1int
        } else {
            0int
        }),
        clicked(b).pages == b.pages,
        clicked(b).id == b.id,
{
}

/// A bubble after some clicks.
pub open spec fn clicks(b: SpeechBubble, n: nat) -> SpeechBubble
    decreases n,
{
    if n == 0 {
        b
    } else {
        clicked(clicks(b, (n - 1) as nat))
    }
}

/// A click turns one page; after the last page one click makes the bubble shake
/// and one more dismisses it.
pub proof fn law_clicks_read_every_page(b: SpeechBubble, n: nat)
    requires
        b.state == BubbleState::Active,
        b.current_page == 0,
        b.pages@.len() > 0,
        b.pages@.len() <= usize::MAX,
    ensures
        n < b.pages@.len() ==> clicks(b, n).state == BubbleState::Active && clicks(
            b,
            n,
        ).current_page == n,
        n == b.pages@.len() ==> clicks(b, n).state is Shaking,
        n > b.pages@.len() ==> clicks(b, n).state == BubbleState::Dismissed,
        clicks(b, n).pages == b.pages,
    decreases n,
{
    if n > 0 {
        law_clicks_read_every_page(b, (n - 1) as nat);
    }
}

/// Every bubble is either kept by a tick or its id is told, and what is kept can be seen.
pub proof fn law_tick_loses_nothing(s: Seq<SpeechBubble>, t: Seq<ShakeTick>)
    requires
        s.len() == t.len(),
    ensures
        kept_by(s, t).len() + dismissed_by(s, t).len() == s.len(),
        forall|i: int|
            0 <= i < kept_by(s, t).len() ==> (#[trigger] kept_by(s, t)[i]).state
                != BubbleState::Dismissed,
{
    lemma_tick_prefix(s, t, s.len() as int);
    assert(s.take(s.len() as int) =~= s);
}

proof fn lemma_tick_prefix(s: Seq<SpeechBubble>, t: Seq<ShakeTick>, n: int)
    requires
        0 <= n <= s.len(),
    ensures
        kept_by(s.take(n), t).len() + dismissed_by(s.take(n), t).len() == n,
        forall|i: int|
            0 <= i < kept_by(s.take(n), t).len() ==> (#[trigger] kept_by(s.take(n), t)[i]).state
                != BubbleState::Dismissed,
    decreases n,
{
    if n > 0 {
        lemma_tick_prefix(s, t, n - 1);
        assert(s.take(n).drop_last() =~= s.take(n - 1));
    }
}

/// Showing a bubble keeps one bubble per id.
pub proof fn law_one_bubble_per_id(s: Seq<SpeechBubble>, b: SpeechBubble)
    requires
        ids_distinct(s),
    ensures
        ids_distinct(without_id(s, b.id).push(b)),
{
    lemma_without_id(s, b.id);
}

proof fn lemma_without_id(s: Seq<SpeechBubble>, id: u32)
    requires
        ids_distinct(s),
    ensures
        ids_distinct(without_id(s, id)),
        forall|i: int|
            0 <= i < without_id(s, id).len() ==> (#[trigger] without_id(s, id)[i]).id != id
                && s.contains(without_id(s, id)[i]),
    decreases s.len(),
{
    if s.len() > 0 {
        let d = s.drop_last();
        assert(ids_distinct(d)) by {
            assert forall|i: int, j: int|
                0 <= i < d.len() && 0 <= j < d.len() && (#[trigger] d[i]).id == (
                #[trigger] d[j]).id implies i == j by {
                assert(s[i].id == s[j].id);
            }
        }
        lemma_without_id(d, id);
        let w = without_id(d, id);
        assert forall|i: int| 0 <= i < w.len() implies s.contains(#[trigger] w[i]) && w[i].id
            != s.last().id by {
            assert(d.contains(w[i]));
            let k = choose|k: int| 0 <= k < d.len() && d[k] == w[i];
            assert(s[k] == w[i]);
            if w[i].id == s.last().id {
                assert(s[k].id == s[s.len() - 1].id);
            }
        }
        assert(s.contains(s[s.len() - 1]));
    }
}

} // verus!
