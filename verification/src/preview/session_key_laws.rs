//! Nothing that decides the preview of a session, a stroke or a stamp is left out of
//! its key.

use vstd::prelude::*;

use crate::preview::key_laws::{law_pin_words, lemma_pin_words, lemma_text_at};
use crate::preview::keys::{lemma_letters, maybe_words, pin_words, text_words, KeyWord};
use crate::preview::mode::{law_shape_numbers_differ, PreviewMode};
use crate::preview::session_keys::{
    ball_words, bone_key, bone_words, brush_key, clip_words, filled_words, joint_words,
    squishy_key, stamp_key, Bone, BoneJoint, BoneSession, BrushHover, ClipEntry, SquishyBall,
    SquishySession,
};
use crate::voxelle::VoxelCoord;

verus! {

proof fn lemma_clip_words(clip: Seq<ClipEntry>)
    ensures
        clip_words(clip).len() == 4 * clip.len(),
    decreases clip.len(),
{
    if clip.len() > 0 {
        lemma_clip_words(clip.drop_last());
    }
}

/// Clipboards with the same words are the same.
pub proof fn law_clip_words(a: Seq<ClipEntry>, b: Seq<ClipEntry>)
    ensures
        clip_words(a) == clip_words(b) ==> a == b,
    decreases a.len(),
{
    lemma_clip_words(a);
    lemma_clip_words(b);
    let (k, l) = (clip_words(a), clip_words(b));
    if k == l {
        if a.len() > 0 {
            let (p, q) = (a.drop_last(), b.drop_last());
            lemma_clip_words(p);
            lemma_clip_words(q);
            let n = clip_words(p).len() as int;
            assert(k.take(n) =~= clip_words(p));
            assert(l.take(n) =~= clip_words(q));
            law_clip_words(p, q);
            assert(k[n] == l[n] && k[n + 1] == l[n + 1] && k[n + 2] == l[n + 2] && k[n + 3] == l[n
                + 3]);
            assert(a =~= p.push(a.last()));
            assert(b =~= q.push(b.last()));
        } else {
            assert(a =~= b);
        }
    }
}

/// Previews of stamps have the same words only for the same stamp at the same place.
pub proof fn law_stamp_key(
    mode: PreviewMode,
    anchor: Option<VoxelCoord>,
    clip: Seq<ClipEntry>,
    origin_x: i32,
    origin_z: i32,
    debug_overlay: bool,
    mode2: PreviewMode,
    anchor2: Option<VoxelCoord>,
    clip2: Seq<ClipEntry>,
    origin_x2: i32,
    origin_z2: i32,
    debug_overlay2: bool,
)
    ensures
        stamp_key(mode, anchor, clip, origin_x, origin_z, debug_overlay) == stamp_key(
            mode2,
            anchor2,
            clip2,
            origin_x2,
            origin_z2,
            debug_overlay2,
        ) ==> mode == mode2 && anchor == anchor2 && clip == clip2 && origin_x == origin_x2
            && origin_z == origin_z2 && debug_overlay == debug_overlay2,
{
    let k = stamp_key(mode, anchor, clip, origin_x, origin_z, debug_overlay);
    let l = stamp_key(mode2, anchor2, clip2, origin_x2, origin_z2, debug_overlay2);
    if k == l {
        lemma_clip_words(clip);
        lemma_clip_words(clip2);
        assert(k[0] == l[0] && k[1] == l[1]);
        assert(anchor is Some == anchor2 is Some);
        let m: int = if anchor is Some {
            assert(k[2] == l[2] && k[3] == l[3] && k[4] == l[4]);
            5
        } else {
            2
        };
        let n = k.len() - 3;
        assert(k.subrange(m, n) =~= clip_words(clip));
        assert(l.subrange(m, n) =~= clip_words(clip2));
        law_clip_words(clip, clip2);
        assert(k[n] == l[n] && k[n + 1] == l[n + 1] && k[n + 2] == l[n + 2]);
    }
}

proof fn lemma_ball_words(balls: Seq<SquishyBall>)
    ensures
        ball_words(balls).len() == 5 * balls.len(),
    decreases balls.len(),
{
    if balls.len() > 0 {
        lemma_ball_words(balls.drop_last());
    }
}

/// Balls with the same words are the same.
pub proof fn law_ball_words(a: Seq<SquishyBall>, b: Seq<SquishyBall>)
    ensures
        ball_words(a) == ball_words(b) ==> a == b,
    decreases a.len(),
{
    lemma_ball_words(a);
    lemma_ball_words(b);
    let (k, l) = (ball_words(a), ball_words(b));
    if k == l {
        if a.len() > 0 {
            let (p, q) = (a.drop_last(), b.drop_last());
            lemma_ball_words(p);
            lemma_ball_words(q);
            let n = ball_words(p).len() as int;
            assert(k.take(n) =~= ball_words(p));
            assert(l.take(n) =~= ball_words(q));
            law_ball_words(p, q);
            assert(k[n] == l[n] && k[n + 1] == l[n + 1] && k[n + 2] == l[n + 2] && k[n + 3] == l[n
                + 3] && k[n + 4] == l[n + 4]);
            assert(a =~= p.push(a.last()));
            assert(b =~= q.push(b.last()));
        } else {
            assert(a =~= b);
        }
    }
}

/// Previews of metaball sessions have the same words only for sessions with the same
/// balls and settings, the pointer at the same place.
#[verifier::rlimit(50)]
pub proof fn law_squishy_key(
    session: SquishySession,
    sx: u32,
    sy: u32,
    add_anchor: Option<VoxelCoord>,
    gizmo_drag: bool,
    delete_hover_id: Option<u32>,
    debug_overlay: bool,
    palette_color: u32,
    session2: SquishySession,
    sx2: u32,
    sy2: u32,
    add_anchor2: Option<VoxelCoord>,
    gizmo_drag2: bool,
    delete_hover_id2: Option<u32>,
    debug_overlay2: bool,
    palette_color2: u32,
)
    ensures
        squishy_key(
            session,
            sx,
            sy,
            add_anchor,
            gizmo_drag,
            delete_hover_id,
            debug_overlay,
            palette_color,
        ) == squishy_key(
            session2,
            sx2,
            sy2,
            add_anchor2,
            gizmo_drag2,
            delete_hover_id2,
            debug_overlay2,
            palette_color2,
        ) ==> {
            &&& session.mode_number == session2.mode_number
            &&& session.hollow == session2.hollow
            &&& session.wall_thickness == session2.wall_thickness
            &&& session.add_snap_to_surface == session2.add_snap_to_surface
            &&& session.selected_id == session2.selected_id
            &&& session.balls@ == session2.balls@
            &&& sx == sx2 && sy == sy2
            &&& add_anchor == add_anchor2
            &&& gizmo_drag == gizmo_drag2
            &&& delete_hover_id == delete_hover_id2
            &&& debug_overlay == debug_overlay2
            &&& palette_color == palette_color2
        },
{
    let k = squishy_key(
        session,
        sx,
        sy,
        add_anchor,
        gizmo_drag,
        delete_hover_id,
        debug_overlay,
        palette_color,
    );
    let l = squishy_key(
        session2,
        sx2,
        sy2,
        add_anchor2,
        gizmo_drag2,
        delete_hover_id2,
        debug_overlay2,
        palette_color2,
    );
    if k == l {
        lemma_ball_words(session.balls@);
        lemma_ball_words(session2.balls@);
        assert(k[1] == l[1] && k[2] == l[2] && k[3] == l[3] && k[4] == l[4] && k[5] == l[5] && k[6]
            == l[6]);
        assert(delete_hover_id is Some == delete_hover_id2 is Some);
        let m: int = if delete_hover_id is Some {
            assert(k[7] == l[7]);
            8
        } else {
            7
        };
        assert(k[m] == l[m] && k[m + 1] == l[m + 1] && k[m + 2] == l[m + 2] && k[m + 3] == l[m + 3]
            && k[m + 4] == l[m + 4]);
        assert(session.selected_id is Some == session2.selected_id is Some);
        let b: int = if session.selected_id is Some {
            assert(k[m + 5] == l[m + 5]);
            m + 6
        } else {
            m + 5
        };
        assert(add_anchor is Some == add_anchor2 is Some);
        let e: int = if add_anchor is Some {
            k.len() - 3
        } else {
            k.len() - 1
        };
        assert(k.subrange(b, e) =~= ball_words(session.balls@));
        assert(l.subrange(b, e) =~= ball_words(session2.balls@));
        law_ball_words(session.balls@, session2.balls@);
        if add_anchor is Some {
            assert(k[e] == l[e] && k[e + 1] == l[e + 1] && k[e + 2] == l[e + 2]);
        }
    }
}

proof fn lemma_joint_words(joints: Seq<BoneJoint>)
    ensures
        joint_words(joints).len() == 5 * joints.len(),
        forall|i: int|
            0 <= i < joint_words(joints).len() ==> #[trigger] joint_words(joints)[i] is Word,
    decreases joints.len(),
{
    if joints.len() > 0 {
        lemma_joint_words(joints.drop_last());
    }
}

proof fn lemma_bone_words(bones: Seq<Bone>)
    ensures
        bone_words(bones).len() == 3 * bones.len(),
        forall|i: int| 0 <= i < bone_words(bones).len() ==> #[trigger] bone_words(bones)[i] is Word,
    decreases bones.len(),
{
    if bones.len() > 0 {
        lemma_bone_words(bones.drop_last());
    }
}

/// Joints with the same words are the same.
pub proof fn law_joint_words(a: Seq<BoneJoint>, b: Seq<BoneJoint>)
    ensures
        joint_words(a) == joint_words(b) ==> a == b,
    decreases a.len(),
{
    lemma_joint_words(a);
    lemma_joint_words(b);
    let (k, l) = (joint_words(a), joint_words(b));
    if k == l {
        if a.len() > 0 {
            let (p, q) = (a.drop_last(), b.drop_last());
            lemma_joint_words(p);
            lemma_joint_words(q);
            let n = joint_words(p).len() as int;
            assert(k.take(n) =~= joint_words(p));
            assert(l.take(n) =~= joint_words(q));
            law_joint_words(p, q);
            assert(k[n] == l[n] && k[n + 1] == l[n + 1] && k[n + 2] == l[n + 2] && k[n + 3] == l[n
                + 3] && k[n + 4] == l[n + 4]);
            assert(a =~= p.push(a.last()));
            assert(b =~= q.push(b.last()));
        } else {
            assert(a =~= b);
        }
    }
}

/// Bones with the same words are the same.
pub proof fn law_bone_words(a: Seq<Bone>, b: Seq<Bone>)
    ensures
        bone_words(a) == bone_words(b) ==> a == b,
    decreases a.len(),
{
    lemma_bone_words(a);
    lemma_bone_words(b);
    let (k, l) = (bone_words(a), bone_words(b));
    if k == l {
        if a.len() > 0 {
            let (p, q) = (a.drop_last(), b.drop_last());
            lemma_bone_words(p);
            lemma_bone_words(q);
            let n = bone_words(p).len() as int;
            assert(k.take(n) =~= bone_words(p));
            assert(l.take(n) =~= bone_words(q));
            law_bone_words(p, q);
            assert(k[n] == l[n] && k[n + 1] == l[n + 1] && k[n + 2] == l[n + 2]);
            assert(a =~= p.push(a.last()));
            assert(b =~= q.push(b.last()));
        } else {
            assert(a =~= b);
        }
    }
}

/// Previews of skeleton sessions with as many joints have the same words only for
/// sessions with the same joints, bones and selection, the pointer at the same place.
/// The words do not tell joints from bones: three joints read like five bones.
pub proof fn law_bone_key(
    session: BoneSession,
    sx: u32,
    sy: u32,
    gizmo_drag: bool,
    debug_overlay: bool,
    palette_color: u32,
    session2: BoneSession,
    sx2: u32,
    sy2: u32,
    gizmo_drag2: bool,
    debug_overlay2: bool,
    palette_color2: u32,
)
    ensures
        bone_key(session, sx, sy, gizmo_drag, debug_overlay, palette_color) == bone_key(
            session2,
            sx2,
            sy2,
            gizmo_drag2,
            debug_overlay2,
            palette_color2,
        ) ==> {
            &&& sx == sx2 && sy == sy2
            &&& gizmo_drag == gizmo_drag2
            &&& debug_overlay == debug_overlay2
            &&& palette_color == palette_color2
            &&& session.selected == session2.selected
            &&& session.pending_joint == session2.pending_joint
            &&& 5 * session.joints@.len() + 3 * session.bones@.len() == 5 * session2.joints@.len()
                + 3 * session2.bones@.len()
            &&& session.joints@.len() == session2.joints@.len() ==> session.joints@
                == session2.joints@ && session.bones@ == session2.bones@
        },
{
    let k = bone_key(session, sx, sy, gizmo_drag, debug_overlay, palette_color);
    let l = bone_key(session2, sx2, sy2, gizmo_drag2, debug_overlay2, palette_color2);
    if k == l {
        lemma_joint_words(session.joints@);
        lemma_joint_words(session2.joints@);
        lemma_bone_words(session.bones@);
        lemma_bone_words(session2.bones@);
        assert(k[1] == l[1] && k[2] == l[2] && k[3] == l[3] && k[4] == l[4] && k[5] == l[5]);
        let (j, j2) = (joint_words(session.joints@), joint_words(session2.joints@));
        let (b, b2) = (bone_words(session.bones@), bone_words(session2.bones@));
        let (n, n2) = (6int + j.len() + b.len(), 6int + j2.len() + b2.len());
        assert(k[n] == maybe_words(session.selected)[0]);
        assert(l[n2] == maybe_words(session2.selected)[0]);
        if n < n2 {
            assert(l.subrange(6, n2) =~= j2 + b2);
            lemma_word_at(l, n, j2, b2);
            assert(false);
        }
        if n2 < n {
            assert(k.subrange(6, n) =~= j + b);
            lemma_word_at(k, n2, j, b);
            assert(false);
        }
        let m: int = if session.selected is Some {
            assert(k[n + 1] == l[n + 1]);
            n + 2
        } else {
            n + 1
        };
        assert(k[m] == maybe_words(session.pending_joint)[0]);
        assert(l[m] == maybe_words(session2.pending_joint)[0]);
        if session.pending_joint is Some {
            assert(k[m + 1] == l[m + 1]);
        }
        if session.joints@.len() == session2.joints@.len() {
            let c = 6int + j.len();
            assert(k.subrange(6, c) =~= j);
            assert(l.subrange(6, c) =~= j2);
            law_joint_words(session.joints@, session2.joints@);
            assert(k.subrange(c, n) =~= b);
            assert(l.subrange(c, n) =~= b2);
            law_bone_words(session.bones@, session2.bones@);
        }
    }
}

/// A place within the words of joints and bones that follow six others holds a number.
proof fn lemma_word_at(k: Seq<KeyWord>, i: int, j: Seq<KeyWord>, b: Seq<KeyWord>)
    requires
        6 <= i < 6 + j.len() + b.len() <= k.len(),
        k.subrange(6, 6int + j.len() + b.len()) == j + b,
        forall|x: int| 0 <= x < j.len() ==> #[trigger] j[x] is Word,
        forall|x: int| 0 <= x < b.len() ==> #[trigger] b[x] is Word,
    ensures
        k[i] is Word,
{
    let w = j + b;
    assert(k[i] == w[i - 6]);
    if i - 6 < j.len() {
        assert(w[i - 6] == j[i - 6]);
    } else {
        assert(w[i - 6] == b[i - 6 - j.len()]);
    }
}

/// Previews of strokes have the same words only for the same stroke that reaches the
/// same cells, with the same of them filled.
#[verifier::rlimit(50)]
pub proof fn law_brush_key(
    mode: PreviewMode,
    ctx: BrushHover,
    cells: Seq<VoxelCoord>,
    map: Map<VoxelCoord, usize>,
    debug_overlay: bool,
    mode2: PreviewMode,
    ctx2: BrushHover,
    cells2: Seq<VoxelCoord>,
    map2: Map<VoxelCoord, usize>,
    debug_overlay2: bool,
)
    requires
        cells.len() <= usize::MAX,
        cells2.len() <= usize::MAX,
    ensures
        brush_key(mode, ctx, cells, map, debug_overlay) == brush_key(
            mode2,
            ctx2,
            cells2,
            map2,
            debug_overlay2,
        ) ==> {
            &&& mode == mode2
            &&& debug_overlay == debug_overlay2
            &&& cells == cells2
            &&& forall|i: int|
                0 <= i < cells.len() ==> map.contains_key(#[trigger] cells[i])
                    == map2.contains_key(cells[i])
            &&& ctx == (BrushHover {
                material: ctx.material,
                stroke_aux: ctx.stroke_aux,
                ..ctx2
            })
            &&& ctx.material@ == ctx2.material@
            &&& ctx.stroke_aux is Some == ctx2.stroke_aux is Some
            &&& ctx.stroke_aux is Some ==> ctx.stroke_aux->0@ == ctx2.stroke_aux->0@
        },
{
    let k = brush_key(mode, ctx, cells, map, debug_overlay);
    let l = brush_key(mode2, ctx2, cells2, map2, debug_overlay2);
    if k == l {
        let (s, t) = (ctx.material@, ctx2.material@);
        lemma_letters(s);
        lemma_letters(t);
        lemma_pin_words(cells);
        lemma_pin_words(cells2);
        assert(k[0] == l[0] && k[1] == l[1] && k[2] == l[2] && k[3] == l[3] && k[4] == l[4] && k[5]
            == l[5] && k[6] == l[6] && k[7] == l[7] && k[8] == l[8]);
        law_shape_numbers_differ(ctx.brush_shape, ctx2.brush_shape);
        assert(k.subrange(9, 10int + s.len()) =~= text_words(s));
        assert(l.subrange(9, 10int + t.len()) =~= text_words(t));
        lemma_text_at(k, 9, s, l, t);
        let m = 10int + s.len();
        assert(k[m] == l[m] && k[m + 1] == l[m + 1]);
        assert(cells.len() == cells2.len());
        let p = m + 2;
        let f = p + 3 * cells.len();
        assert(k.subrange(p, f) =~= pin_words(cells));
        assert(l.subrange(p, f) =~= pin_words(cells2));
        law_pin_words(cells, cells2);
        assert forall|i: int| 0 <= i < cells.len() implies map.contains_key(#[trigger] cells[i])
            == map2.contains_key(cells[i]) by {
            assert(k[f + i] == filled_words(cells, map)[i]);
            assert(l[f + i] == filled_words(cells2, map2)[i]);
        }
        let e = f + cells.len();
        match (ctx.stroke_aux, ctx2.stroke_aux) {
            (Some(u), Some(v)) => {
                lemma_letters(u@);
                lemma_letters(v@);
                assert(k.subrange(e, e + 1 + u@.len()) =~= text_words(u@));
                assert(l.subrange(e, e + 1 + v@.len()) =~= text_words(v@));
                lemma_text_at(k, e, u@, l, v@);
            },
            _ => {},
        }
    }
}

} // verus!
