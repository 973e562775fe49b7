//! What holds of every frame: no pass reads what it draws to, every texture is
//! made for its uses, every pipeline fits its pass, and nothing is read in a
//! frame before it was written.

use vstd::prelude::*;

use crate::render::bind_groups::{layout_of, resources, samples, Resource};
use crate::render::frame::{
    attaches, bloom_steps, blur_step, colors_of, copy_source, copy_target, depth_target, end_steps,
    frame, groups_of, label_steps, may_draw, meter_steps, pass_exists, pass_samples, reads,
    scene_steps, swap_steps, writes, CopyId, FrameInputs, FrameStep, PassId,
};
use crate::render::pipelines::{state_of, PipelineId};
use crate::render::textures::{
    texture_exists, texture_format, texture_size, texture_use, TargetShape, TextureId,
};

verus! {

/// No pass samples a texture that it draws to.
pub proof fn law_no_pass_reads_its_target(p: PassId, t: TextureId)
    requires
        pass_exists(p),
        attaches(p, t),
    ensures
        !pass_samples(p, t),
{
    assert forall|i: int| 0 <= i < groups_of(p).len() implies !samples(
        #[trigger] groups_of(p)[i],
        t,
    ) by {
        lemma_apart(p, i, t);
    }
}

proof fn lemma_apart(p: PassId, i: int, t: TextureId)
    requires
        pass_exists(p),
        attaches(p, t),
        0 <= i < groups_of(p).len(),
    ensures
        !samples(groups_of(p)[i], t),
{
    let g = groups_of(p)[i];
    let r = resources(g);
    assert forall|m: int| 0 <= m < r.len() implies r[m] != Resource::Texture(t) by {
    }
}

/// Every texture that a pass draws to exists and may be drawn to; every texture
/// that it samples exists and may be sampled.
pub proof fn law_passes_use_textures_as_made(p: PassId, t: TextureId)
    requires
        pass_exists(p),
    ensures
        attaches(p, t) ==> texture_exists(t) && texture_use(t).attach,
        pass_samples(p, t) ==> texture_exists(t) && texture_use(t).sample,
{
    if pass_samples(p, t) {
        let i = choose|i: int| 0 <= i < groups_of(p).len() && samples(#[trigger] groups_of(p)[i], t);
        let g = groups_of(p)[i];
        let m = choose|m: int| 0 <= m < resources(g).len() && resources(g)[m] == Resource::Texture(t);
        assert(resources(g)[m] == Resource::Texture(t));
    }
}

/// A copy goes between textures that may be copied so, are of one format and,
/// but for the last one, of one size.
pub proof fn law_copies_use_textures_as_made(c: CopyId, s: TargetShape)
    ensures
        texture_use(copy_source(c)).copy_from,
        texture_use(copy_target(c)).copy_to,
        texture_format(copy_source(c), s.surface_format) == texture_format(
            copy_target(c),
            s.surface_format,
        ),
        c != CopyId::PresentToSwapchain ==> texture_size(copy_source(c), s) == texture_size(
            copy_target(c),
            s,
        ),
{
}

/// A pipeline that may be drawn with in a pass has the pass's targets, and
/// tests depth exactly where the pass has a depth target; the pass uses groups
/// of the layouts that it asks for. Mascots, logo and bubbles need a surface of
/// the standard range format.
pub proof fn law_pipelines_fit_their_passes(
    p: PassId,
    pl: PipelineId,
    start_screen: bool,
    surface: u32,
    sdr: u32,
)
    requires
        may_draw(p, pl, start_screen),
        p == PassId::Mascot || p == PassId::SpeechBubble ==> surface == sdr,
    ensures
        ({
            let s = state_of(pl, surface, sdr);
            let c = colors_of(p);
            &&& s.target0 is Some <==> c.len() >= 1
            &&& s.target1 is Some <==> c.len() >= 2
            &&& c.len() >= 1 ==> (s.target0->0).format == texture_format(c[0].texture, surface)
            &&& c.len() >= 2 ==> (s.target1->0).format == texture_format(c[1].texture, surface)
            &&& s.depth is Some <==> depth_target(p) is Some
            &&& exists|i: int|
                0 <= i < groups_of(p).len() && layout_of(#[trigger] groups_of(p)[i]) == s.group0
            &&& s.group1 is Some ==> exists|i: int|
                0 <= i < groups_of(p).len() && layout_of(#[trigger] groups_of(p)[i])
                    == s.group1->0
        }),
{
    let g = groups_of(p);
    assert(g.len() >= 1);
    let s = state_of(pl, surface, sdr);
    if layout_of(g[0]) == s.group0 {
    } else {
        assert(layout_of(g[1]) == s.group0);
    }
    if s.group1 is Some {
        assert(layout_of(g[1]) == s.group1->0);
    }
}

/// A depth target has the extent of the colour targets that it is attached beside.
pub proof fn law_depth_matches_color(p: PassId, s: TargetShape, i: int)
    requires
        depth_target(p) is Some,
        0 <= i < colors_of(p).len(),
    ensures
        texture_size((depth_target(p)->0).texture, s) == texture_size(colors_of(p)[i].texture, s),
{
}

/// A traced frame takes the texture over from frames before it.
pub open spec fn carried_over(f: FrameInputs, t: TextureId) -> bool {
    f.raytrace && (t == TextureId::RtAccum(!f.flip) || t == TextureId::Shadow)
}

/// A step before step `k` of the frame writes the texture.
pub open spec fn written_before(f: FrameInputs, k: int, t: TextureId) -> bool {
    exists|j: int| 0 <= j < k && #[trigger] writes(frame(f)[j], t)
}

/// Nothing is read in a frame before the same frame wrote it. While the ray
/// tracer runs there are two exceptions: the samples that it gathered in the
/// frames before, and the shadow map, which is left as it was.
pub proof fn law_nothing_is_read_too_early(f: FrameInputs, k: int, t: TextureId)
    requires
        0 <= k < frame(f).len(),
        reads(frame(f)[k], t),
    ensures
        written_before(f, k, t) || carried_over(f, t),
{
    lemma_front(f);
    let n = scene_len(f);
    if k < n {
        lemma_scene_reads(f, k, t);
    } else if k < n + 31 {
        lemma_bloom_reads(f, k - n, t);
    } else {
        lemma_rest_reads(f, k, t);
    }
}

spec fn scene_len(f: FrameInputs) -> int {
    scene_steps(f).len() as int
}

/// The frame begins with the scene and the glow.
proof fn lemma_front(f: FrameInputs)
    ensures
        frame(f).len() >= scene_len(f) + 31,
        bloom_steps().len() == 31,
        forall|k: int| 0 <= k < scene_len(f) ==> frame(f)[k] == #[trigger] scene_steps(f)[k],
        forall|k: int|
            0 <= k < 31 ==> frame(f)[scene_len(f) + k] == #[trigger] bloom_steps()[k],
{
    let a = scene_steps(f);
    let b = bloom_steps();
    let c = meter_steps(f);
    let d = seq![FrameStep::UploadComposite, FrameStep::Pass(PassId::Composite)];
    let e = label_steps(f);
    let g = seq![FrameStep::Copy(CopyId::PresentToSwapchain)];
    let h = swap_steps(f);
    let i = end_steps(f);
    assert(frame(f) == a + b + c + d + e + g + h + i);
    assert forall|k: int| 0 <= k < a.len() implies frame(f)[k] == #[trigger] a[k] by {
    }
    assert forall|k: int| 0 <= k < 31 implies frame(f)[scene_len(f) + k] == #[trigger] b[k] by {
    }
}

/// What the passes that read something sample.
proof fn lemma_sampled(p: PassId, t: TextureId)
    requires
        pass_exists(p),
        pass_samples(p, t),
    ensures
        match p {
            PassId::RaytracePreview(side) => t == TextureId::RtAccum(!side),
            PassId::RaytraceUpscale(_) => t == TextureId::RtPreview,
            PassId::Raytrace(side) => t == TextureId::RtAccum(!side),
            PassId::RtOverlay => t == TextureId::Shadow,
            PassId::Opaque => t == TextureId::Shadow,
            PassId::Ssr => t == TextureId::DepthSnapshot || t == TextureId::HdrOpaque || t
                == TextureId::Normal,
            PassId::OitAccum => t == TextureId::Shadow || t == TextureId::HdrOpaque || t
                == TextureId::DepthSnapshot,
            PassId::OitComposite => t == TextureId::OitAccum || t == TextureId::OitRevealage || t
                == TextureId::HdrOpaque || t == TextureId::Ssr,
            PassId::BloomExtract => t == TextureId::Hdr,
            PassId::BlitDown(i) => t == (if i == 0 {
                TextureId::BloomA
            } else {
                TextureId::PyramidA((i - 1) as u32)
            }),
            PassId::BlurH(i) => t == TextureId::PyramidA(i),
            PassId::BlurV(i) => t == TextureId::PyramidB(i),
            PassId::BlitUp(i) => t == TextureId::PyramidA((i + 1) as u32),
            PassId::BlitFinal => t == TextureId::PyramidA(0),
            PassId::Meter => t == TextureId::Hdr,
            PassId::Composite => t == TextureId::Hdr || t == TextureId::BloomA || t
                == TextureId::Depth,
            _ => false,
        },
{
    let i = choose|i: int| 0 <= i < groups_of(p).len() && samples(#[trigger] groups_of(p)[i], t);
    let g = groups_of(p)[i];
    let m = choose|m: int| 0 <= m < resources(g).len() && resources(g)[m] == Resource::Texture(t);
    assert(resources(g)[m] == Resource::Texture(t));
}

/// A colour target is written.
proof fn lemma_writes_color(p: PassId, i: int)
    requires
        0 <= i < colors_of(p).len(),
    ensures
        writes(FrameStep::Pass(p), colors_of(p)[i].texture),
{
}

proof fn lemma_scene_reads(f: FrameInputs, k: int, t: TextureId)
    requires
        0 <= k < scene_len(f),
        reads(frame(f)[k], t),
    ensures
        written_before(f, k, t) || carried_over(f, t),
{
    lemma_front(f);
    let s = scene_steps(f);
    assert(frame(f)[k] == s[k]);
    if s[k] is Pass {
        lemma_sampled(s[k]->Pass_0, t);
    }
    if f.raytrace && f.fast_preview {
        assert(frame(f)[1] == s[1] && frame(f)[2] == s[2]);
        lemma_writes_color(PassId::RaytracePreview(f.flip), 0);
        lemma_writes_color(PassId::RaytraceUpscale(f.flip), 0);
        assert(writes(frame(f)[1], TextureId::RtPreview));
        assert(writes(frame(f)[2], TextureId::RtAccum(f.flip)));
    } else if f.raytrace {
        assert(frame(f)[1] == s[1]);
        lemma_writes_color(PassId::Raytrace(f.flip), 0);
        assert(writes(frame(f)[1], TextureId::RtAccum(f.flip)));
    } else {
        assert(frame(f)[0] == s[0] && frame(f)[1] == s[1] && frame(f)[3] == s[3] && frame(f)[4]
            == s[4] && frame(f)[5] == s[5]);
        lemma_writes_color(PassId::Opaque, 0);
        lemma_writes_color(PassId::Opaque, 1);
        lemma_writes_color(PassId::Ssr, 0);
        lemma_writes_color(PassId::OitAccum, 0);
        lemma_writes_color(PassId::OitAccum, 1);
        assert(writes(frame(f)[0], TextureId::Shadow));
        assert(writes(frame(f)[1], TextureId::HdrOpaque));
        assert(writes(frame(f)[1], TextureId::Normal));
        assert(writes(frame(f)[1], TextureId::Depth));
        assert(writes(frame(f)[3], TextureId::DepthSnapshot));
        assert(writes(frame(f)[4], TextureId::Ssr));
        assert(writes(frame(f)[5], TextureId::OitAccum));
        assert(writes(frame(f)[5], TextureId::OitRevealage));
    }
}

/// The finished scene and its depth are written by the steps of the scene.
proof fn lemma_scene_writes(f: FrameInputs, k: int)
    requires
        k >= scene_len(f),
    ensures
        written_before(f, k, TextureId::Hdr),
        written_before(f, k, TextureId::Depth),
{
    lemma_front(f);
    let s = scene_steps(f);
    if f.raytrace {
        let last = scene_len(f) - 1;
        assert(frame(f)[last] == s[last]);
        lemma_writes_color(PassId::RtOverlay, 0);
        assert(writes(frame(f)[last], TextureId::Hdr));
        assert(writes(frame(f)[last], TextureId::Depth));
    } else {
        assert(frame(f)[1] == s[1] && frame(f)[2] == s[2]);
        assert(writes(frame(f)[1], TextureId::Depth));
        assert(writes(frame(f)[2], TextureId::Hdr));
    }
}

/// Where the steps of the glow stand.
proof fn lemma_bloom_places(k: int)
    requires
        0 <= k < 31,
    ensures
        k == 0 ==> bloom_steps()[k] == FrameStep::Pass(PassId::BloomExtract),
        1 <= k < 6 ==> bloom_steps()[k] == FrameStep::Pass(PassId::BlitDown((k - 1) as u32)),
        6 <= k < 26 ==> bloom_steps()[k] == blur_step(k - 6),
        26 <= k < 30 ==> bloom_steps()[k] == FrameStep::Pass(PassId::BlitUp((29 - k) as u32)),
        k == 30 ==> bloom_steps()[k] == FrameStep::Pass(PassId::BlitFinal),
{
}

/// Step `k` of the glow writes what its pass draws to.
proof fn lemma_bloom_writes(f: FrameInputs, k: int)
    requires
        0 <= k < 31,
    ensures
        k == 0 ==> writes(frame(f)[scene_len(f) + k], TextureId::BloomA),
        1 <= k < 6 ==> writes(frame(f)[scene_len(f) + k], TextureId::PyramidA((k - 1) as u32)),
        6 <= k < 26 && (k - 6) % 4 == 1 ==> writes(
            frame(f)[scene_len(f) + k],
            TextureId::PyramidB(((k - 6) / 4) as u32),
        ),
        k == 30 ==> writes(frame(f)[scene_len(f) + k], TextureId::BloomA),
{
    lemma_front(f);
    lemma_bloom_places(k);
    assert(frame(f)[scene_len(f) + k] == bloom_steps()[k]);
    if bloom_steps()[k] is Pass {
        let p = bloom_steps()[k]->Pass_0;
        assert(colors_of(p).len() == 1);
        lemma_writes_color(p, 0);
    }
}

proof fn lemma_bloom_reads(f: FrameInputs, k: int, t: TextureId)
    requires
        0 <= k < 31,
        reads(frame(f)[scene_len(f) + k], t),
    ensures
        written_before(f, scene_len(f) + k, t),
{
    lemma_front(f);
    lemma_bloom_places(k);
    let n = scene_len(f);
    assert(frame(f)[n + k] == bloom_steps()[k]);
    assert(bloom_steps()[k] is Pass);
    let p = bloom_steps()[k]->Pass_0;
    assert(pass_exists(p));
    lemma_sampled(p, t);
    if k == 0 {
        lemma_scene_writes(f, n);
    } else if k < 6 {
        lemma_bloom_writes(f, k - 1);
        assert(writes(frame(f)[n + (k - 1)], t));
    } else if k < 26 {
        let level = (k - 6) / 4;
        if (k - 6) % 4 == 1 {
            lemma_bloom_writes(f, 1 + level);
            assert(writes(frame(f)[n + (1 + level)], t));
        } else {
            assert((k - 6) % 4 == 3);
            lemma_bloom_writes(f, k - 2);
            assert((k - 2 - 6) % 4 == 1 && (k - 2 - 6) / 4 == level);
            assert(writes(frame(f)[n + (k - 2)], t));
        }
    } else if k < 30 {
        let from = 1 + (30 - k);
        lemma_bloom_writes(f, from);
        assert(writes(frame(f)[n + from], t));
    } else {
        lemma_bloom_writes(f, 1);
        assert(writes(frame(f)[n + 1], t));
    }
}

proof fn lemma_rest_reads(f: FrameInputs, k: int, t: TextureId)
    requires
        scene_len(f) + 31 <= k < frame(f).len(),
        reads(frame(f)[k], t),
    ensures
        written_before(f, k, t),
{
    lemma_front(f);
    lemma_scene_writes(f, k);
    let n = scene_len(f);
    let c = meter_steps(f);
    let d = seq![FrameStep::UploadComposite, FrameStep::Pass(PassId::Composite)];
    let e = label_steps(f);
    let g = seq![FrameStep::Copy(CopyId::PresentToSwapchain)];
    let h = swap_steps(f);
    let i = end_steps(f);
    let front = scene_steps(f) + bloom_steps();
    assert(frame(f) == front + c + d + e + g + h + i);
    let m = n + 31 + c.len();
    assert(frame(f)[m + 1] == FrameStep::Pass(PassId::Composite));
    lemma_bloom_writes(f, 30);
    assert(writes(frame(f)[n + 30], TextureId::BloomA));
    if k < m {
        assert(frame(f)[k] == c[k - (n + 31)]);
        if k == n + 31 {
            lemma_sampled(PassId::Meter, t);
        } else {
            assert(frame(f)[n + 31] == c[0]);
            lemma_writes_color(PassId::Meter, 0);
            assert(writes(frame(f)[n + 31], TextureId::Meter));
        }
    } else if k < m + 2 {
        assert(frame(f)[k] == d[k - m]);
        lemma_sampled(PassId::Composite, t);
    } else if k < m + 2 + e.len() {
        assert(frame(f)[k] == e[k - (m + 2)]);
        assert(e[k - (m + 2)] is Pass);
        lemma_sampled(e[k - (m + 2)]->Pass_0, t);
    } else if k == m + 2 + e.len() {
        assert(frame(f)[k] == g[0]);
        lemma_writes_color(PassId::Composite, 0);
        assert(writes(frame(f)[m + 1], TextureId::Present));
    } else if k < m + 3 + e.len() + h.len() {
        assert(frame(f)[k] == h[k - (m + 3 + e.len())]);
    } else {
        assert(frame(f)[k] == i[k - (m + 3 + e.len() + h.len())]);
    }
}

} // verus!
