//! One frame: which passes and copies it is made of, in which order, what each
//! pass draws to and what it samples.

use vstd::prelude::*;

use crate::render::bind_groups::{samples, GroupId};
use crate::render::pipelines::{is_overlay, PipelineId};
use crate::render::textures::{TextureId, BLOOM_LEVELS};

verus! {

/// A render pass. A flag is the side of the ray tracer's accumulator that is
/// written, a number a level of the bloom pyramid.
#[derive(Clone, Copy, Debug, PartialEq, Eq, Structural)]
pub enum PassId {
    /// One sample per pixel at half resolution.
    RaytracePreview(bool),
    /// The half resolution picture, scaled up.
    RaytraceUpscale(bool),
    /// One sample per pixel.
    Raytrace(bool),
    /// Editing aids over the traced picture.
    RtOverlay,
    Shadow,
    /// Background, opaque surfaces and editing aids.
    Opaque,
    Ssr,
    OitAccum,
    OitComposite,
    BloomExtract,
    BlitDown(u32),
    BlurH(u32),
    BlurV(u32),
    BlitUp(u32),
    BlitFinal,
    Meter,
    Composite,
    /// How far the gizmo was dragged.
    GizmoLabel,
    /// Names of peers and at a ping.
    NameLabels,
    /// The logo, or one mascot.
    Mascot,
    /// One speech bubble.
    SpeechBubble,
    /// The text of all speech bubbles.
    SpeechBubbleText,
}

/// A copy from texture to texture.
#[derive(Clone, Copy, Debug, PartialEq, Eq, Structural)]
pub enum CopyId {
    RtToHdr(bool),
    OpaqueToHdr,
    DepthToSnapshot,
    PresentToSwapchain,
}

/// One step of a frame.
#[derive(Clone, Copy, Debug, PartialEq, Eq, Structural)]
pub enum FrameStep {
    UploadRtUniform,
    Pass(PassId),
    Copy(CopyId),
    /// The direction of the next blur: horizontal or vertical.
    UploadBlur(bool),
    /// The metered luminance, to be read later.
    CopyMeter,
    /// Composite options, and the exposure for the next frame's bloom.
    UploadComposite,
    Logo,
    Mascots,
    SpeechBubbles,
    Submit,
    ReadMeter,
    Present,
}

/// A colour target of a pass.
#[derive(Clone, Copy, Debug, PartialEq, Eq, Structural)]
pub struct ColorAttachment {
    pub texture: TextureId,
    /// Cleared first; otherwise what is there is kept.
    pub clear: bool,
    /// Kept afterwards.
    pub store: bool,
}

/// The depth target of a pass.
#[derive(Clone, Copy, Debug, PartialEq, Eq, Structural)]
pub struct DepthAttachment {
    pub texture: TextureId,
    pub clear: bool,
    pub store: bool,
}

/// What a frame depends on.
#[derive(Clone, Copy, Debug, PartialEq, Eq, Structural)]
pub struct FrameInputs {
    pub raytrace: bool,
    pub flip: bool,
    pub fast_preview: bool,
    pub start_screen: bool,
    pub auto_exposure: bool,
    pub gizmo_label: bool,
    pub names: bool,
    pub bubbles: bool,
}

/// The level of a bloom pass exists.
pub open spec fn pass_exists(p: PassId) -> bool {
    match p {
        PassId::BlitDown(i) => i < BLOOM_LEVELS,
        PassId::BlurH(i) => i < BLOOM_LEVELS,
        PassId::BlurV(i) => i < BLOOM_LEVELS,
        PassId::BlitUp(i) => i + 1 < BLOOM_LEVELS,
        _ => true,
    }
}

/// A target that is cleared and kept.
pub open spec fn cleared(texture: TextureId) -> ColorAttachment {
    ColorAttachment { texture, clear: true, store: true }
}

/// A target that is drawn over.
pub open spec fn kept(texture: TextureId) -> ColorAttachment {
    ColorAttachment { texture, clear: false, store: true }
}

/// The colour targets of a pass.
pub open spec fn colors_of(p: PassId) -> Seq<ColorAttachment> {
    match p {
        PassId::RaytracePreview(_) => seq![cleared(TextureId::RtPreview)],
        PassId::RaytraceUpscale(side) => seq![cleared(TextureId::RtAccum(side))],
        PassId::Raytrace(side) => seq![cleared(TextureId::RtAccum(side))],
        PassId::RtOverlay => seq![
            kept(TextureId::Hdr),
            ColorAttachment { texture: TextureId::Normal, clear: false, store: false },
        ],
        PassId::Shadow => Seq::empty(),
        PassId::Opaque => seq![cleared(TextureId::HdrOpaque), cleared(TextureId::Normal)],
        PassId::Ssr => seq![cleared(TextureId::Ssr)],
        PassId::OitAccum => seq![cleared(TextureId::OitAccum), cleared(TextureId::OitRevealage)],
        PassId::OitComposite => seq![kept(TextureId::Hdr)],
        PassId::BloomExtract => seq![cleared(TextureId::BloomA)],
        PassId::BlitDown(i) => seq![cleared(TextureId::PyramidA(i))],
        PassId::BlurH(i) => seq![cleared(TextureId::PyramidB(i))],
        PassId::BlurV(i) => seq![cleared(TextureId::PyramidA(i))],
        PassId::BlitUp(i) => seq![kept(TextureId::PyramidA(i))],
        PassId::BlitFinal => seq![cleared(TextureId::BloomA)],
        PassId::Meter => seq![cleared(TextureId::Meter)],
        PassId::Composite => seq![cleared(TextureId::Present)],
        PassId::GizmoLabel => seq![kept(TextureId::Present)],
        PassId::NameLabels => seq![kept(TextureId::Present)],
        PassId::Mascot => seq![kept(TextureId::Swapchain)],
        PassId::SpeechBubble => seq![kept(TextureId::Swapchain)],
        PassId::SpeechBubbleText => seq![kept(TextureId::Swapchain)],
    }
}

/// The depth target of a pass that has one.
pub open spec fn depth_target(p: PassId) -> Option<DepthAttachment> {
    match p {
        PassId::RtOverlay => Some(
            DepthAttachment { texture: TextureId::Depth, clear: true, store: true },
        ),
        PassId::Shadow => Some(
            DepthAttachment { texture: TextureId::Shadow, clear: true, store: true },
        ),
        PassId::Opaque => Some(
            DepthAttachment { texture: TextureId::Depth, clear: true, store: true },
        ),
        PassId::OitAccum => Some(
            DepthAttachment { texture: TextureId::Depth, clear: false, store: true },
        ),
        PassId::Mascot => Some(
            DepthAttachment { texture: TextureId::MascotDepth, clear: true, store: false },
        ),
        _ => None,
    }
}

/// The bind groups that a pass uses.
pub open spec fn groups_of(p: PassId) -> Seq<GroupId> {
    match p {
        PassId::RaytracePreview(side) => seq![GroupId::RtScene, GroupId::RtAccum(side)],
        PassId::RaytraceUpscale(_) => seq![GroupId::RtPreview],
        PassId::Raytrace(side) => seq![GroupId::RtScene, GroupId::RtAccum(side)],
        PassId::RtOverlay => seq![GroupId::SceneOpaque, GroupId::AvatarPeer],
        PassId::Shadow => seq![GroupId::ShadowPass],
        PassId::Opaque => seq![GroupId::SceneOpaque, GroupId::AvatarPeer],
        PassId::Ssr => seq![GroupId::Ssr],
        PassId::OitAccum => seq![GroupId::SceneOpaque, GroupId::Trans],
        PassId::OitComposite => seq![GroupId::OitComposite],
        PassId::BloomExtract => seq![GroupId::BloomExtract],
        PassId::BlitDown(i) => seq![GroupId::BlitDown(i)],
        PassId::BlurH(i) => seq![GroupId::BlurPyrH(i)],
        PassId::BlurV(i) => seq![GroupId::BlurPyrV(i)],
        PassId::BlitUp(i) => seq![GroupId::BlitUpWeighted(i)],
        PassId::BlitFinal => seq![GroupId::BlitFinal],
        PassId::Meter => seq![GroupId::Meter],
        PassId::Composite => seq![GroupId::Composite],
        PassId::GizmoLabel => Seq::empty(),
        PassId::NameLabels => Seq::empty(),
        PassId::Mascot => seq![GroupId::Mascot],
        PassId::SpeechBubble => seq![GroupId::SpeechBubble],
        PassId::SpeechBubbleText => Seq::empty(),
    }
}

/// The pipeline that a pass begins with; passes of text have none of their own.
pub open spec fn first_pipeline(p: PassId, start_screen: bool) -> Option<PipelineId> {
    match p {
        PassId::RaytracePreview(_) => Some(PipelineId::Raytrace),
        PassId::RaytraceUpscale(_) => Some(PipelineId::Blit),
        PassId::Raytrace(_) => Some(PipelineId::Raytrace),
        PassId::RtOverlay => None,
        PassId::Shadow => Some(PipelineId::Shadow),
        PassId::Opaque => if start_screen {
            Some(PipelineId::StartScreenBg)
        } else {
            Some(PipelineId::Sky)
        },
        PassId::Ssr => Some(PipelineId::SsrFullscreen),
        PassId::OitAccum => Some(PipelineId::OitAccum),
        PassId::OitComposite => Some(PipelineId::OitComposite),
        PassId::BloomExtract => Some(PipelineId::BloomExtract),
        PassId::BlitDown(_) => Some(PipelineId::Blit),
        PassId::BlurH(_) => Some(PipelineId::Blur),
        PassId::BlurV(_) => Some(PipelineId::Blur),
        PassId::BlitUp(_) => Some(PipelineId::BlitWeightedAdd),
        PassId::BlitFinal => Some(PipelineId::Blit),
        PassId::Meter => Some(PipelineId::Meter),
        PassId::Composite => Some(PipelineId::Composite),
        PassId::GizmoLabel => None,
        PassId::NameLabels => None,
        PassId::Mascot => Some(PipelineId::Mascot),
        PassId::SpeechBubble => Some(PipelineId::SpeechBubble),
        PassId::SpeechBubbleText => None,
    }
}

/// A pipeline may be drawn with in a pass: the one it begins with, and in the
/// passes that show the scene also those of surfaces, avatars and editing aids.
pub open spec fn may_draw(p: PassId, pl: PipelineId, start_screen: bool) -> bool {
    ||| first_pipeline(p, start_screen) == Some(pl)
    ||| p == PassId::Opaque && (pl == PipelineId::Opaque || pl == PipelineId::Avatar || is_overlay(pl))
    ||| p == PassId::RtOverlay && (pl == PipelineId::Avatar || is_overlay(pl))
}

/// A pass draws to a texture.
pub open spec fn attaches(p: PassId, t: TextureId) -> bool {
    ||| exists|i: int| 0 <= i < colors_of(p).len() && (#[trigger] colors_of(p)[i]).texture == t
    ||| depth_target(p) is Some && (depth_target(p)->0).texture == t
}

/// A pass samples a texture.
pub open spec fn pass_samples(p: PassId, t: TextureId) -> bool {
    exists|i: int| 0 <= i < groups_of(p).len() && samples(#[trigger] groups_of(p)[i], t)
}

/// Source of a copy.
pub open spec fn copy_source(c: CopyId) -> TextureId {
    match c {
        CopyId::RtToHdr(side) => TextureId::RtAccum(side),
        CopyId::OpaqueToHdr => TextureId::HdrOpaque,
        CopyId::DepthToSnapshot => TextureId::Depth,
        CopyId::PresentToSwapchain => TextureId::Present,
    }
}

/// Target of a copy.
pub open spec fn copy_target(c: CopyId) -> TextureId {
    match c {
        CopyId::RtToHdr(_) => TextureId::Hdr,
        CopyId::OpaqueToHdr => TextureId::Hdr,
        CopyId::DepthToSnapshot => TextureId::DepthSnapshot,
        CopyId::PresentToSwapchain => TextureId::Swapchain,
    }
}

/// A step writes a texture.
pub open spec fn writes(s: FrameStep, t: TextureId) -> bool {
    match s {
        FrameStep::Pass(p) => attaches(p, t),
        FrameStep::Copy(c) => copy_target(c) == t,
        _ => false,
    }
}

/// A step reads a texture.
pub open spec fn reads(s: FrameStep, t: TextureId) -> bool {
    match s {
        FrameStep::Pass(p) => pass_samples(p, t),
        FrameStep::Copy(c) => copy_source(c) == t,
        FrameStep::CopyMeter => t == TextureId::Meter,
        _ => false,
    }
}

/// Steps that draw the scene.
pub open spec fn scene_steps(f: FrameInputs) -> Seq<FrameStep> {
    if f.raytrace && f.fast_preview {
        seq![
            FrameStep::UploadRtUniform,
            FrameStep::Pass(PassId::RaytracePreview(f.flip)),
            FrameStep::Pass(PassId::RaytraceUpscale(f.flip)),
            FrameStep::Copy(CopyId::RtToHdr(f.flip)),
            FrameStep::Pass(PassId::RtOverlay),
        ]
    } else if f.raytrace {
        seq![
            FrameStep::UploadRtUniform,
            FrameStep::Pass(PassId::Raytrace(f.flip)),
            FrameStep::Copy(CopyId::RtToHdr(f.flip)),
            FrameStep::Pass(PassId::RtOverlay),
        ]
    } else {
        seq![
            FrameStep::Pass(PassId::Shadow),
            FrameStep::Pass(PassId::Opaque),
            FrameStep::Copy(CopyId::OpaqueToHdr),
            FrameStep::Copy(CopyId::DepthToSnapshot),
            FrameStep::Pass(PassId::Ssr),
            FrameStep::Pass(PassId::OitAccum),
            FrameStep::Pass(PassId::OitComposite),
        ]
    }
}

/// Step `k` of blurring the levels: each level horizontally, then vertically.
pub open spec fn blur_step(k: int) -> FrameStep {
    let level = (k / 4) as u32;
    if k % 4 == 0 {
        FrameStep::UploadBlur(true)
    } else if k % 4 == 1 {
        FrameStep::Pass(PassId::BlurH(level))
    } else if k % 4 == 2 {
        FrameStep::UploadBlur(false)
    } else {
        FrameStep::Pass(PassId::BlurV(level))
    }
}

/// Steps that make the glow: down through the levels, a blur on each, up again.
pub open spec fn bloom_steps() -> Seq<FrameStep> {
    seq![FrameStep::Pass(PassId::BloomExtract)] + Seq::new(
        BLOOM_LEVELS as nat,
        |i: int| FrameStep::Pass(PassId::BlitDown(i as u32)),
    ) + Seq::new((4 * BLOOM_LEVELS) as nat, |k: int| blur_step(k)) + Seq::new(
        (BLOOM_LEVELS - 1) as nat,
        |k: int| FrameStep::Pass(PassId::BlitUp((BLOOM_LEVELS - 2 - k) as u32)),
    ) + seq![FrameStep::Pass(PassId::BlitFinal)]
}

/// Steps that measure the luminance.
pub open spec fn meter_steps(f: FrameInputs) -> Seq<FrameStep> {
    if f.auto_exposure {
        seq![FrameStep::Pass(PassId::Meter), FrameStep::CopyMeter]
    } else {
        Seq::empty()
    }
}

/// Steps that draw text.
pub open spec fn label_steps(f: FrameInputs) -> Seq<FrameStep> {
    (if f.gizmo_label {
        seq![FrameStep::Pass(PassId::GizmoLabel)]
    } else {
        Seq::empty()
    }) + (if f.names {
        seq![FrameStep::Pass(PassId::NameLabels)]
    } else {
        Seq::empty()
    })
}

/// Steps that draw straight to the swapchain: logo, then mascots, then bubbles.
pub open spec fn swap_steps(f: FrameInputs) -> Seq<FrameStep> {
    if f.start_screen {
        seq![FrameStep::Logo, FrameStep::Mascots, FrameStep::SpeechBubbles]
    } else if f.bubbles {
        seq![FrameStep::SpeechBubbles]
    } else {
        Seq::empty()
    }
}

/// Steps that end the frame.
pub open spec fn end_steps(f: FrameInputs) -> Seq<FrameStep> {
    if f.auto_exposure {
        seq![FrameStep::Submit, FrameStep::ReadMeter, FrameStep::Present]
    } else {
        seq![FrameStep::Submit, FrameStep::Present]
    }
}

/// The steps of a frame.
pub open spec fn frame(f: FrameInputs) -> Seq<FrameStep> {
    scene_steps(f) + bloom_steps() + meter_steps(f) + seq![
        FrameStep::UploadComposite,
        FrameStep::Pass(PassId::Composite),
    ] + label_steps(f) + seq![FrameStep::Copy(CopyId::PresentToSwapchain)] + swap_steps(f)
        + end_steps(f)
}

fn clear_to(texture: TextureId) -> (r: ColorAttachment)
    ensures
        r == cleared(texture),
{
    ColorAttachment { texture, clear: true, store: true }
}

fn draw_over(texture: TextureId) -> (r: ColorAttachment)
    ensures
        r == kept(texture),
{
    ColorAttachment { texture, clear: false, store: true }
}

/// The colour targets of a pass.
pub fn pass_colors(p: PassId) -> (r: Vec<ColorAttachment>)
    ensures
        r@ == colors_of(p),
{
    let r: Vec<ColorAttachment> = match p {
        PassId::RaytracePreview(_) => vec![clear_to(TextureId::RtPreview)],
        PassId::RaytraceUpscale(side) => vec![clear_to(TextureId::RtAccum(side))],
        PassId::Raytrace(side) => vec![clear_to(TextureId::RtAccum(side))],
        PassId::RtOverlay => vec![
            draw_over(TextureId::Hdr),
            ColorAttachment { texture: TextureId::Normal, clear: false, store: false },
        ],
        PassId::Shadow => Vec::new(),
        PassId::Opaque => vec![clear_to(TextureId::HdrOpaque), clear_to(TextureId::Normal)],
        PassId::Ssr => vec![clear_to(TextureId::Ssr)],
        PassId::OitAccum => vec![clear_to(TextureId::OitAccum), clear_to(TextureId::OitRevealage)],
        PassId::OitComposite => vec![draw_over(TextureId::Hdr)],
        PassId::BloomExtract => vec![clear_to(TextureId::BloomA)],
        PassId::BlitDown(i) => vec![clear_to(TextureId::PyramidA(i))],
        PassId::BlurH(i) => vec![clear_to(TextureId::PyramidB(i))],
        PassId::BlurV(i) => vec![clear_to(TextureId::PyramidA(i))],
        PassId::BlitUp(i) => vec![draw_over(TextureId::PyramidA(i))],
        PassId::BlitFinal => vec![clear_to(TextureId::BloomA)],
        PassId::Meter => vec![clear_to(TextureId::Meter)],
        PassId::Composite => vec![clear_to(TextureId::Present)],
        PassId::GizmoLabel => vec![draw_over(TextureId::Present)],
        PassId::NameLabels => vec![draw_over(TextureId::Present)],
        PassId::Mascot => vec![draw_over(TextureId::Swapchain)],
        PassId::SpeechBubble => vec![draw_over(TextureId::Swapchain)],
        PassId::SpeechBubbleText => vec![draw_over(TextureId::Swapchain)],
    };
    assert(r@ =~= colors_of(p));
    r
}

/// The depth target of a pass that has one.
pub fn pass_depth(p: PassId) -> (r: Option<DepthAttachment>)
    ensures
        r == depth_target(p),
{
    match p {
        PassId::RtOverlay => Some(
            DepthAttachment { texture: TextureId::Depth, clear: true, store: true },
        ),
        PassId::Shadow => Some(
            DepthAttachment { texture: TextureId::Shadow, clear: true, store: true },
        ),
        PassId::Opaque => Some(
            DepthAttachment { texture: TextureId::Depth, clear: true, store: true },
        ),
        PassId::OitAccum => Some(
            DepthAttachment { texture: TextureId::Depth, clear: false, store: true },
        ),
        PassId::Mascot => Some(
            DepthAttachment { texture: TextureId::MascotDepth, clear: true, store: false },
        ),
        _ => None,
    }
}

/// The bind groups that a pass uses.
pub fn pass_groups(p: PassId) -> (r: Vec<GroupId>)
    ensures
        r@ == groups_of(p),
{
    let r: Vec<GroupId> = match p {
        PassId::RaytracePreview(side) => vec![GroupId::RtScene, GroupId::RtAccum(side)],
        PassId::RaytraceUpscale(_) => vec![GroupId::RtPreview],
        PassId::Raytrace(side) => vec![GroupId::RtScene, GroupId::RtAccum(side)],
        PassId::RtOverlay => vec![GroupId::SceneOpaque, GroupId::AvatarPeer],
        PassId::Shadow => vec![GroupId::ShadowPass],
        PassId::Opaque => vec![GroupId::SceneOpaque, GroupId::AvatarPeer],
        PassId::Ssr => vec![GroupId::Ssr],
        PassId::OitAccum => vec![GroupId::SceneOpaque, GroupId::Trans],
        PassId::OitComposite => vec![GroupId::OitComposite],
        PassId::BloomExtract => vec![GroupId::BloomExtract],
        PassId::BlitDown(i) => vec![GroupId::BlitDown(i)],
        PassId::BlurH(i) => vec![GroupId::BlurPyrH(i)],
        PassId::BlurV(i) => vec![GroupId::BlurPyrV(i)],
        PassId::BlitUp(i) => vec![GroupId::BlitUpWeighted(i)],
        PassId::BlitFinal => vec![GroupId::BlitFinal],
        PassId::Meter => vec![GroupId::Meter],
        PassId::Composite => vec![GroupId::Composite],
        PassId::GizmoLabel => Vec::new(),
        PassId::NameLabels => Vec::new(),
        PassId::Mascot => vec![GroupId::Mascot],
        PassId::SpeechBubble => vec![GroupId::SpeechBubble],
        PassId::SpeechBubbleText => Vec::new(),
    };
    assert(r@ =~= groups_of(p));
    r
}

/// The pipeline that a pass begins with.
pub fn pass_pipeline(p: PassId, start_screen: bool) -> (r: Option<PipelineId>)
    ensures
        r == first_pipeline(p, start_screen),
{
    match p {
        PassId::RaytracePreview(_) => Some(PipelineId::Raytrace),
        PassId::RaytraceUpscale(_) => Some(PipelineId::Blit),
        PassId::Raytrace(_) => Some(PipelineId::Raytrace),
        PassId::RtOverlay => None,
        PassId::Shadow => Some(PipelineId::Shadow),
        PassId::Opaque => if start_screen {
            Some(PipelineId::StartScreenBg)
        } else {
            Some(PipelineId::Sky)
        },
        PassId::Ssr => Some(PipelineId::SsrFullscreen),
        PassId::OitAccum => Some(PipelineId::OitAccum),
        PassId::OitComposite => Some(PipelineId::OitComposite),
        PassId::BloomExtract => Some(PipelineId::BloomExtract),
        PassId::BlitDown(_) => Some(PipelineId::Blit),
        PassId::BlurH(_) => Some(PipelineId::Blur),
        PassId::BlurV(_) => Some(PipelineId::Blur),
        PassId::BlitUp(_) => Some(PipelineId::BlitWeightedAdd),
        PassId::BlitFinal => Some(PipelineId::Blit),
        PassId::Meter => Some(PipelineId::Meter),
        PassId::Composite => Some(PipelineId::Composite),
        PassId::GizmoLabel => None,
        PassId::NameLabels => None,
        PassId::Mascot => Some(PipelineId::Mascot),
        PassId::SpeechBubble => Some(PipelineId::SpeechBubble),
        PassId::SpeechBubbleText => None,
    }
}

/// Source and target of a copy.
pub fn copy_ends(c: CopyId) -> (r: (TextureId, TextureId))
    ensures
        r.0 == copy_source(c),
        r.1 == copy_target(c),
{
    match c {
        CopyId::RtToHdr(side) => (TextureId::RtAccum(side), TextureId::Hdr),
        CopyId::OpaqueToHdr => (TextureId::HdrOpaque, TextureId::Hdr),
        CopyId::DepthToSnapshot => (TextureId::Depth, TextureId::DepthSnapshot),
        CopyId::PresentToSwapchain => (TextureId::Present, TextureId::Swapchain),
    }
}

fn push_scene(out: &mut Vec<FrameStep>, f: &FrameInputs)
    ensures
        final(out)@ == old(out)@ + scene_steps(*f),
{
    if f.raytrace {
        out.push(FrameStep::UploadRtUniform);
        if f.fast_preview {
            out.push(FrameStep::Pass(PassId::RaytracePreview(f.flip)));
            out.push(FrameStep::Pass(PassId::RaytraceUpscale(f.flip)));
        } else {
            out.push(FrameStep::Pass(PassId::Raytrace(f.flip)));
        }
        out.push(FrameStep::Copy(CopyId::RtToHdr(f.flip)));
        out.push(FrameStep::Pass(PassId::RtOverlay));
    } else {
        out.push(FrameStep::Pass(PassId::Shadow));
        out.push(FrameStep::Pass(PassId::Opaque));
        out.push(FrameStep::Copy(CopyId::OpaqueToHdr));
        out.push(FrameStep::Copy(CopyId::DepthToSnapshot));
        out.push(FrameStep::Pass(PassId::Ssr));
        out.push(FrameStep::Pass(PassId::OitAccum));
        out.push(FrameStep::Pass(PassId::OitComposite));
    }
    assert(out@ =~= old(out)@ + scene_steps(*f));
}

fn push_bloom(out: &mut Vec<FrameStep>)
    ensures
        final(out)@ == old(out)@ + bloom_steps(),
{
    let ghost start = out@;
    out.push(FrameStep::Pass(PassId::BloomExtract));
    let ghost extracted = out@;
    let mut i: u32 = 0;
    while i < BLOOM_LEVELS
        invariant
            i <= BLOOM_LEVELS,
            out@ == extracted + Seq::new(
                i as nat,
                |i: int| FrameStep::Pass(PassId::BlitDown(i as u32)),
            ),
        decreases BLOOM_LEVELS - i,
    {
        out.push(FrameStep::Pass(PassId::BlitDown(i)));
        assert(out@ =~= extracted + Seq::new(
            (i + 1) as nat,
            |i: int| FrameStep::Pass(PassId::BlitDown(i as u32)),
        ));
        i += 1;
    }
    let ghost down = out@;
    let mut k: u32 = 0;
    while k < BLOOM_LEVELS
        invariant
            k <= BLOOM_LEVELS,
            out@ == down + Seq::new((4 * k) as nat, |k: int| blur_step(k)),
        decreases BLOOM_LEVELS - k,
    {
        out.push(FrameStep::UploadBlur(true));
        out.push(FrameStep::Pass(PassId::BlurH(k)));
        out.push(FrameStep::UploadBlur(false));
        out.push(FrameStep::Pass(PassId::BlurV(k)));
        proof {
            let n = 4 * k as int;
            assert(blur_step(n) == FrameStep::UploadBlur(true));
            assert(blur_step(n + 1) == FrameStep::Pass(PassId::BlurH(k)));
            assert(blur_step(n + 2) == FrameStep::UploadBlur(false));
            assert(blur_step(n + 3) == FrameStep::Pass(PassId::BlurV(k)));
            assert(out@ =~= down + Seq::new((4 * (k + 1)) as nat, |k: int| blur_step(k)));
        }
        k += 1;
    }
    let ghost blurred = out@;
    let mut j: u32 = 0;
    while j < BLOOM_LEVELS - 1
        invariant
            j <= BLOOM_LEVELS - 1,
            out@ == blurred + Seq::new(
                j as nat,
                |k: int| FrameStep::Pass(PassId::BlitUp((BLOOM_LEVELS - 2 - k) as u32)),
            ),
        decreases BLOOM_LEVELS - 1 - j,
    {
        out.push(FrameStep::Pass(PassId::BlitUp(BLOOM_LEVELS - 2 - j)));
        assert(out@ =~= blurred + Seq::new(
            (j + 1) as nat,
            |k: int| FrameStep::Pass(PassId::BlitUp((BLOOM_LEVELS - 2 - k) as u32)),
        ));
        j += 1;
    }
    out.push(FrameStep::Pass(PassId::BlitFinal));
    assert(out@ =~= start + bloom_steps());
}

fn push_meter(out: &mut Vec<FrameStep>, f: &FrameInputs)
    ensures
        final(out)@ == old(out)@ + meter_steps(*f),
{
    if f.auto_exposure {
        out.push(FrameStep::Pass(PassId::Meter));
        out.push(FrameStep::CopyMeter);
    }
    assert(out@ =~= old(out)@ + meter_steps(*f));
}

fn push_labels(out: &mut Vec<FrameStep>, f: &FrameInputs)
    ensures
        final(out)@ == old(out)@ + label_steps(*f),
{
    if f.gizmo_label {
        out.push(FrameStep::Pass(PassId::GizmoLabel));
    }
    if f.names {
        out.push(FrameStep::Pass(PassId::NameLabels));
    }
    assert(out@ =~= old(out)@ + label_steps(*f));
}

fn push_swap(out: &mut Vec<FrameStep>, f: &FrameInputs)
    ensures
        final(out)@ == old(out)@ + swap_steps(*f),
{
    if f.start_screen {
        out.push(FrameStep::Logo);
        out.push(FrameStep::Mascots);
    }
    if f.start_screen || f.bubbles {
        out.push(FrameStep::SpeechBubbles);
    }
    assert(out@ =~= old(out)@ + swap_steps(*f));
}

fn push_end(out: &mut Vec<FrameStep>, f: &FrameInputs)
    ensures
        final(out)@ == old(out)@ + end_steps(*f),
{
    out.push(FrameStep::Submit);
    if f.auto_exposure {
        out.push(FrameStep::ReadMeter);
    }
    out.push(FrameStep::Present);
    assert(out@ =~= old(out)@ + end_steps(*f));
}

fn push_composite(out: &mut Vec<FrameStep>)
    ensures
        final(out)@ == old(out)@ + seq![
            FrameStep::UploadComposite,
            FrameStep::Pass(PassId::Composite),
        ],
{
    out.push(FrameStep::UploadComposite);
    out.push(FrameStep::Pass(PassId::Composite));
    assert(out@ =~= old(out)@ + seq![
        FrameStep::UploadComposite,
        FrameStep::Pass(PassId::Composite),
    ]);
}

fn push_present(out: &mut Vec<FrameStep>)
    ensures
        final(out)@ == old(out)@ + seq![FrameStep::Copy(CopyId::PresentToSwapchain)],
{
    out.push(FrameStep::Copy(CopyId::PresentToSwapchain));
    assert(out@ =~= old(out)@ + seq![FrameStep::Copy(CopyId::PresentToSwapchain)]);
}

/// The steps of a frame, in order.
pub fn render(f: &FrameInputs) -> (r: Vec<FrameStep>)
    ensures
        r@ == frame(*f),
{
    let mut r: Vec<FrameStep> = Vec::new();
    push_scene(&mut r, f);
    assert(r@ == scene_steps(*f)) by {
        assert(Seq::<FrameStep>::empty() + scene_steps(*f) =~= scene_steps(*f));
    }
    push_bloom(&mut r);
    push_meter(&mut r, f);
    push_composite(&mut r);
    push_labels(&mut r, f);
    push_present(&mut r);
    push_swap(&mut r, f);
    push_end(&mut r, f);
    r
}

} // verus!
