//! Bind groups: the resource that stands behind each binding of each group.

use vstd::prelude::*;

use crate::render::layouts::{layout, BindKind, LayoutId};
use crate::render::textures::{
    texture_exists, texture_format, texture_use, TexelFormat, TextureId, BLOOM_LEVELS,
};

verus! {

/// A buffer that a bind group can hold.
#[derive(Clone, Copy, Debug, PartialEq, Eq, Structural)]
pub enum BufferId {
    Global,
    Brick,
    BloomExtract,
    PostBlur,
    BlitWeight,
    CompositeOpts,
    SsrOpts,
    RtUniform,
    AvatarUniforms,
    MascotUniforms,
    BubbleUniforms,
}

/// A sampler.
#[derive(Clone, Copy, Debug, PartialEq, Eq, Structural)]
pub enum SamplerId {
    Linear,
    Depth,
    Comparison,
}

/// A resource that a binding can hold.
#[derive(Clone, Copy, Debug, PartialEq, Eq, Structural)]
pub enum Resource {
    Buffer(BufferId),
    Texture(TextureId),
    Sampler(SamplerId),
}

/// A bind group. A number is a level of the bloom pyramid, a flag the side of
/// the ray tracer's accumulator that is written.
#[derive(Clone, Copy, Debug, PartialEq, Eq, Structural)]
pub enum GroupId {
    /// Group 0 of the scene pipelines.
    SceneOpaque,
    /// Group 0 of the shadow pipeline.
    ShadowPass,
    /// Source of the bloom extraction.
    BloomExtract,
    /// Source of the luminance meter.
    Meter,
    /// Full size horizontal blur.
    BlurH,
    /// Full size vertical blur.
    BlurV,
    /// Everything the final tone mapping reads.
    Composite,
    /// Group 1 of the transparent pipeline.
    Trans,
    /// Screen space reflections.
    Ssr,
    /// The accumulated transparent layers and what they cover.
    OitComposite,
    /// Source of a step down the bloom pyramid.
    BlitDown(u32),
    /// Source of a plain step up the bloom pyramid.
    BlitUp(u32),
    /// Source of a weighted step up the bloom pyramid.
    BlitUpWeighted(u32),
    /// The finished pyramid.
    BlitFinal,
    /// Horizontal blur of a level.
    BlurPyrH(u32),
    /// Vertical blur of a level.
    BlurPyrV(u32),
    /// Scene data of the ray tracer.
    RtScene,
    /// Previous samples while the given side is written.
    RtAccum(bool),
    /// Source of the upscaling blit.
    RtPreview,
    /// One peer's avatar parameters.
    AvatarPeer,
    /// One mascot's parameters, or the logo's.
    Mascot,
    /// One speech bubble's parameters.
    SpeechBubble,
}

/// The level of a bloom group exists.
pub open spec fn group_exists(g: GroupId) -> bool {
    match g {
        GroupId::BlitDown(i) => i < BLOOM_LEVELS,
        GroupId::BlitUp(i) => i + 1 < BLOOM_LEVELS,
        GroupId::BlitUpWeighted(i) => i + 1 < BLOOM_LEVELS,
        GroupId::BlurPyrH(i) => i < BLOOM_LEVELS,
        GroupId::BlurPyrV(i) => i < BLOOM_LEVELS,
        _ => true,
    }
}

/// The layout a group is made for.
pub open spec fn layout_of(g: GroupId) -> LayoutId {
    match g {
        GroupId::SceneOpaque => LayoutId::Scene0,
        GroupId::ShadowPass => LayoutId::ShadowVs,
        GroupId::BloomExtract => LayoutId::PostBlur,
        GroupId::Meter => LayoutId::PostBloom,
        GroupId::BlurH => LayoutId::PostBlur,
        GroupId::BlurV => LayoutId::PostBlur,
        GroupId::Composite => LayoutId::PostComposite,
        GroupId::Trans => LayoutId::Scene1,
        GroupId::Ssr => LayoutId::Ssr,
        GroupId::OitComposite => LayoutId::OitComposite,
        GroupId::BlitDown(_) => LayoutId::PostBloom,
        GroupId::BlitUp(_) => LayoutId::PostBloom,
        GroupId::BlitUpWeighted(_) => LayoutId::PostBlur,
        GroupId::BlitFinal => LayoutId::PostBloom,
        GroupId::BlurPyrH(_) => LayoutId::PostBlur,
        GroupId::BlurPyrV(_) => LayoutId::PostBlur,
        GroupId::RtScene => LayoutId::RtScene,
        GroupId::RtAccum(_) => LayoutId::RtAccum,
        GroupId::RtPreview => LayoutId::PostBloom,
        GroupId::AvatarPeer => LayoutId::Avatar,
        GroupId::Mascot => LayoutId::Mascot,
        GroupId::SpeechBubble => LayoutId::SpeechBubble,
    }
}

/// Source of step `i` down the pyramid: the extracted picture, then the level above.
pub open spec fn down_source(i: int) -> TextureId {
    if i == 0 {
        TextureId::BloomA
    } else {
        TextureId::PyramidA((i - 1) as u32)
    }
}

/// The resources of a group, in binding order.
pub open spec fn resources(g: GroupId) -> Seq<Resource> {
    match g {
        GroupId::SceneOpaque => seq![
            Resource::Buffer(BufferId::Global),
            Resource::Buffer(BufferId::Brick),
            Resource::Texture(TextureId::Shadow),
            Resource::Sampler(SamplerId::Comparison),
        ],
        GroupId::ShadowPass => seq![
            Resource::Buffer(BufferId::Global),
            Resource::Buffer(BufferId::Brick),
        ],
        GroupId::BloomExtract => seq![
            Resource::Texture(TextureId::Hdr),
            Resource::Sampler(SamplerId::Linear),
            Resource::Buffer(BufferId::BloomExtract),
        ],
        GroupId::Meter => seq![
            Resource::Texture(TextureId::Hdr),
            Resource::Sampler(SamplerId::Linear),
        ],
        GroupId::BlurH => seq![
            Resource::Texture(TextureId::BloomA),
            Resource::Sampler(SamplerId::Linear),
            Resource::Buffer(BufferId::PostBlur),
        ],
        GroupId::BlurV => seq![
            Resource::Texture(TextureId::BloomB),
            Resource::Sampler(SamplerId::Linear),
            Resource::Buffer(BufferId::PostBlur),
        ],
        GroupId::Composite => seq![
            Resource::Texture(TextureId::Hdr),
            Resource::Texture(TextureId::BloomA),
            Resource::Sampler(SamplerId::Linear),
            Resource::Buffer(BufferId::CompositeOpts),
            Resource::Texture(TextureId::Depth),
            Resource::Sampler(SamplerId::Depth),
            Resource::Buffer(BufferId::Global),
        ],
        GroupId::Trans => seq![
            Resource::Texture(TextureId::HdrOpaque),
            Resource::Sampler(SamplerId::Linear),
            Resource::Texture(TextureId::DepthSnapshot),
            Resource::Sampler(SamplerId::Depth),
            Resource::Buffer(BufferId::SsrOpts),
        ],
        GroupId::Ssr => seq![
            Resource::Buffer(BufferId::Global),
            Resource::Texture(TextureId::DepthSnapshot),
            Resource::Texture(TextureId::HdrOpaque),
            Resource::Sampler(SamplerId::Linear),
            Resource::Sampler(SamplerId::Depth),
            Resource::Buffer(BufferId::SsrOpts),
            Resource::Texture(TextureId::Normal),
        ],
        GroupId::OitComposite => seq![
            Resource::Texture(TextureId::OitAccum),
            Resource::Texture(TextureId::OitRevealage),
            Resource::Texture(TextureId::HdrOpaque),
            Resource::Sampler(SamplerId::Linear),
            Resource::Texture(TextureId::Ssr),
        ],
        GroupId::BlitDown(i) => seq![
            Resource::Texture(down_source(i as int)),
            Resource::Sampler(SamplerId::Linear),
        ],
        GroupId::BlitUp(i) => seq![
            Resource::Texture(TextureId::PyramidA((i + 1) as u32)),
            Resource::Sampler(SamplerId::Linear),
        ],
        GroupId::BlitUpWeighted(i) => seq![
            Resource::Texture(TextureId::PyramidA((i + 1) as u32)),
            Resource::Sampler(SamplerId::Linear),
            Resource::Buffer(BufferId::BlitWeight),
        ],
        GroupId::BlitFinal => seq![
            Resource::Texture(TextureId::PyramidA(0)),
            Resource::Sampler(SamplerId::Linear),
        ],
        GroupId::BlurPyrH(i) => seq![
            Resource::Texture(TextureId::PyramidA(i)),
            Resource::Sampler(SamplerId::Linear),
            Resource::Buffer(BufferId::PostBlur),
        ],
        GroupId::BlurPyrV(i) => seq![
            Resource::Texture(TextureId::PyramidB(i)),
            Resource::Sampler(SamplerId::Linear),
            Resource::Buffer(BufferId::PostBlur),
        ],
        GroupId::RtScene => seq![
            Resource::Buffer(BufferId::Global),
            Resource::Buffer(BufferId::Brick),
        ],
        GroupId::RtAccum(i) => seq![
            Resource::Texture(TextureId::RtAccum(!i)),
            Resource::Sampler(SamplerId::Linear),
            Resource::Buffer(BufferId::RtUniform),
            Resource::Buffer(BufferId::CompositeOpts),
        ],
        GroupId::RtPreview => seq![
            Resource::Texture(TextureId::RtPreview),
            Resource::Sampler(SamplerId::Linear),
        ],
        GroupId::AvatarPeer => seq![
            Resource::Buffer(BufferId::AvatarUniforms),
        ],
        GroupId::Mascot => seq![
            Resource::Buffer(BufferId::MascotUniforms),
        ],
        GroupId::SpeechBubble => seq![
            Resource::Buffer(BufferId::BubbleUniforms),
        ],
    }
}

/// What a resource can stand behind.
pub open spec fn kind_of(r: Resource) -> BindKind {
    match r {
        Resource::Buffer(b) => if b == BufferId::Global || b == BufferId::Brick {
            BindKind::StorageRead
        } else {
            BindKind::Uniform
        },
        Resource::Texture(t) => if texture_format(t, 0) == TexelFormat::Depth32Float {
            BindKind::DepthTexture
        } else {
            BindKind::FloatTexture
        },
        Resource::Sampler(SamplerId::Linear) => BindKind::FilterSampler,
        Resource::Sampler(SamplerId::Depth) => BindKind::NearestSampler,
        Resource::Sampler(SamplerId::Comparison) => BindKind::CompareSampler,
    }
}

/// A group samples a texture.
pub open spec fn samples(g: GroupId, t: TextureId) -> bool {
    resources(g).contains(Resource::Texture(t))
}

/// Every group has exactly the resources its layout asks for, each of the kind
/// it asks for, and every texture of it exists and may be sampled.
pub proof fn law_groups_fit_their_layouts(g: GroupId, i: int)
    requires
        group_exists(g),
        0 <= i < resources(g).len(),
    ensures
        resources(g).len() == layout(layout_of(g)).len(),
        kind_of(resources(g)[i]) == layout(layout_of(g))[i].1,
        resources(g)[i] matches Resource::Texture(t) ==> texture_exists(t) && texture_use(t).sample,
{
}

/// While one side of the ray tracer's accumulator is written, only the other is read.
pub proof fn law_accumulator_alternates(side: bool)
    ensures
        samples(GroupId::RtAccum(side), TextureId::RtAccum(!side)),
        !samples(GroupId::RtAccum(side), TextureId::RtAccum(side)),
{
    let s = resources(GroupId::RtAccum(side));
    assert(s[0] == Resource::Texture(TextureId::RtAccum(!side)));
    assert(s.len() == 4);
    assert forall|i: int| 0 <= i < s.len() implies s[i] != Resource::Texture(
        TextureId::RtAccum(side),
    ) by {
        assert(i == 0 || i == 1 || i == 2 || i == 3);
    }
}

/// The layout a group is made for.
pub fn group_layout(g: GroupId) -> (r: LayoutId)
    ensures
        r == layout_of(g),
{
    match g {
        GroupId::SceneOpaque => LayoutId::Scene0,
        GroupId::ShadowPass => LayoutId::ShadowVs,
        GroupId::BloomExtract => LayoutId::PostBlur,
        GroupId::Meter => LayoutId::PostBloom,
        GroupId::BlurH => LayoutId::PostBlur,
        GroupId::BlurV => LayoutId::PostBlur,
        GroupId::Composite => LayoutId::PostComposite,
        GroupId::Trans => LayoutId::Scene1,
        GroupId::Ssr => LayoutId::Ssr,
        GroupId::OitComposite => LayoutId::OitComposite,
        GroupId::BlitDown(_) => LayoutId::PostBloom,
        GroupId::BlitUp(_) => LayoutId::PostBloom,
        GroupId::BlitUpWeighted(_) => LayoutId::PostBlur,
        GroupId::BlitFinal => LayoutId::PostBloom,
        GroupId::BlurPyrH(_) => LayoutId::PostBlur,
        GroupId::BlurPyrV(_) => LayoutId::PostBlur,
        GroupId::RtScene => LayoutId::RtScene,
        GroupId::RtAccum(_) => LayoutId::RtAccum,
        GroupId::RtPreview => LayoutId::PostBloom,
        GroupId::AvatarPeer => LayoutId::Avatar,
        GroupId::Mascot => LayoutId::Mascot,
        GroupId::SpeechBubble => LayoutId::SpeechBubble,
    }
}

/// The resources of a group, in binding order.
pub fn group_resources(g: GroupId) -> (r: Vec<Resource>)
    requires
        group_exists(g),
    ensures
        r@ == resources(g),
{
    let r: Vec<Resource> = match g {
        GroupId::SceneOpaque => vec![
            Resource::Buffer(BufferId::Global),
            Resource::Buffer(BufferId::Brick),
            Resource::Texture(TextureId::Shadow),
            Resource::Sampler(SamplerId::Comparison),
        ],
        GroupId::ShadowPass => vec![
            Resource::Buffer(BufferId::Global),
            Resource::Buffer(BufferId::Brick),
        ],
        GroupId::BloomExtract => vec![
            Resource::Texture(TextureId::Hdr),
            Resource::Sampler(SamplerId::Linear),
            Resource::Buffer(BufferId::BloomExtract),
        ],
        GroupId::Meter => vec![
            Resource::Texture(TextureId::Hdr),
            Resource::Sampler(SamplerId::Linear),
        ],
        GroupId::BlurH => vec![
            Resource::Texture(TextureId::BloomA),
            Resource::Sampler(SamplerId::Linear),
            Resource::Buffer(BufferId::PostBlur),
        ],
        GroupId::BlurV => vec![
            Resource::Texture(TextureId::BloomB),
            Resource::Sampler(SamplerId::Linear),
            Resource::Buffer(BufferId::PostBlur),
        ],
        GroupId::Composite => vec![
            Resource::Texture(TextureId::Hdr),
            Resource::Texture(TextureId::BloomA),
            Resource::Sampler(SamplerId::Linear),
            Resource::Buffer(BufferId::CompositeOpts),
            Resource::Texture(TextureId::Depth),
            Resource::Sampler(SamplerId::Depth),
            Resource::Buffer(BufferId::Global),
        ],
        GroupId::Trans => vec![
            Resource::Texture(TextureId::HdrOpaque),
            Resource::Sampler(SamplerId::Linear),
            Resource::Texture(TextureId::DepthSnapshot),
            Resource::Sampler(SamplerId::Depth),
            Resource::Buffer(BufferId::SsrOpts),
        ],
        GroupId::Ssr => vec![
            Resource::Buffer(BufferId::Global),
            Resource::Texture(TextureId::DepthSnapshot),
            Resource::Texture(TextureId::HdrOpaque),
            Resource::Sampler(SamplerId::Linear),
            Resource::Sampler(SamplerId::Depth),
            Resource::Buffer(BufferId::SsrOpts),
            Resource::Texture(TextureId::Normal),
        ],
        GroupId::OitComposite => vec![
            Resource::Texture(TextureId::OitAccum),
            Resource::Texture(TextureId::OitRevealage),
            Resource::Texture(TextureId::HdrOpaque),
            Resource::Sampler(SamplerId::Linear),
            Resource::Texture(TextureId::Ssr),
        ],
        GroupId::BlitDown(i) => vec![
            if i == 0 {
                Resource::Texture(TextureId::BloomA)
            } else {
                Resource::Texture(TextureId::PyramidA(i - 1))
            },
            Resource::Sampler(SamplerId::Linear),
        ],
        GroupId::BlitUp(i) => vec![
            Resource::Texture(TextureId::PyramidA(i + 1)),
            Resource::Sampler(SamplerId::Linear),
        ],
        GroupId::BlitUpWeighted(i) => vec![
            Resource::Texture(TextureId::PyramidA(i + 1)),
            Resource::Sampler(SamplerId::Linear),
            Resource::Buffer(BufferId::BlitWeight),
        ],
        GroupId::BlitFinal => vec![
            Resource::Texture(TextureId::PyramidA(0)),
            Resource::Sampler(SamplerId::Linear),
        ],
        GroupId::BlurPyrH(i) => vec![
            Resource::Texture(TextureId::PyramidA(i)),
            Resource::Sampler(SamplerId::Linear),
            Resource::Buffer(BufferId::PostBlur),
        ],
        GroupId::BlurPyrV(i) => vec![
            Resource::Texture(TextureId::PyramidB(i)),
            Resource::Sampler(SamplerId::Linear),
            Resource::Buffer(BufferId::PostBlur),
        ],
        GroupId::RtScene => vec![
            Resource::Buffer(BufferId::Global),
            Resource::Buffer(BufferId::Brick),
        ],
        GroupId::RtAccum(i) => vec![
            Resource::Texture(TextureId::RtAccum(!i)),
            Resource::Sampler(SamplerId::Linear),
            Resource::Buffer(BufferId::RtUniform),
            Resource::Buffer(BufferId::CompositeOpts),
        ],
        GroupId::RtPreview => vec![
            Resource::Texture(TextureId::RtPreview),
            Resource::Sampler(SamplerId::Linear),
        ],
        GroupId::AvatarPeer => vec![
            Resource::Buffer(BufferId::AvatarUniforms),
        ],
        GroupId::Mascot => vec![
            Resource::Buffer(BufferId::MascotUniforms),
        ],
        GroupId::SpeechBubble => vec![
            Resource::Buffer(BufferId::BubbleUniforms),
        ],
    };
    assert(r@ =~= resources(g));
    r
}

/// Groups of one kind, for the first `n` levels.
pub open spec fn per_level(n: int, group: spec_fn(u32) -> GroupId) -> Seq<GroupId> {
    Seq::new(n as nat, |i: int| group(i as u32))
}

/// The bloom groups, kind after kind.
pub open spec fn pyramid_groups() -> Seq<GroupId> {
    per_level(BLOOM_LEVELS as int, |i: u32| GroupId::BlitDown(i)) + per_level(
        BLOOM_LEVELS - 1,
        |i: u32| GroupId::BlitUp(i),
    ) + per_level(BLOOM_LEVELS - 1, |i: u32| GroupId::BlitUpWeighted(i)) + seq![GroupId::BlitFinal]
        + per_level(BLOOM_LEVELS as int, |i: u32| GroupId::BlurPyrH(i)) + per_level(
        BLOOM_LEVELS as int,
        |i: u32| GroupId::BlurPyrV(i),
    )
}

/// The groups that hold a texture or buffer which can be made anew, in the
/// order in which they are made.
pub open spec fn rebuilt_groups() -> Seq<GroupId> {
    seq![
        GroupId::SceneOpaque,
        GroupId::ShadowPass,
        GroupId::BloomExtract,
        GroupId::Meter,
        GroupId::BlurH,
        GroupId::BlurV,
        GroupId::Composite,
        GroupId::Trans,
        GroupId::Ssr,
        GroupId::OitComposite,
    ] + pyramid_groups() + seq![
        GroupId::RtScene,
        GroupId::RtAccum(false),
        GroupId::RtAccum(true),
        GroupId::RtPreview,
    ]
}

/// The bloom groups, kind after kind.
pub fn build_bloom_pyramid_bind_groups() -> (r: Vec<GroupId>)
    ensures
        r@ == pyramid_groups(),
{
    let r: Vec<GroupId> = vec![
        GroupId::BlitDown(0),
        GroupId::BlitDown(1),
        GroupId::BlitDown(2),
        GroupId::BlitDown(3),
        GroupId::BlitDown(4),
        GroupId::BlitUp(0),
        GroupId::BlitUp(1),
        GroupId::BlitUp(2),
        GroupId::BlitUp(3),
        GroupId::BlitUpWeighted(0),
        GroupId::BlitUpWeighted(1),
        GroupId::BlitUpWeighted(2),
        GroupId::BlitUpWeighted(3),
        GroupId::BlitFinal,
        GroupId::BlurPyrH(0),
        GroupId::BlurPyrH(1),
        GroupId::BlurPyrH(2),
        GroupId::BlurPyrH(3),
        GroupId::BlurPyrH(4),
        GroupId::BlurPyrV(0),
        GroupId::BlurPyrV(1),
        GroupId::BlurPyrV(2),
        GroupId::BlurPyrV(3),
        GroupId::BlurPyrV(4),
    ];
    assert(r@ =~= pyramid_groups());
    r
}

/// The groups to make anew after the targets or the voxel brick changed.
pub fn rebuild_bind_groups() -> (r: Vec<GroupId>)
    ensures
        r@ == rebuilt_groups(),
{
    let mut r: Vec<GroupId> = vec![
        GroupId::SceneOpaque,
        GroupId::ShadowPass,
        GroupId::BloomExtract,
        GroupId::Meter,
        GroupId::BlurH,
        GroupId::BlurV,
        GroupId::Composite,
        GroupId::Trans,
        GroupId::Ssr,
        GroupId::OitComposite,
    ];
    let mut pyramid = build_bloom_pyramid_bind_groups();
    r.append(&mut pyramid);
    r.push(GroupId::RtScene);
    r.push(GroupId::RtAccum(false));
    r.push(GroupId::RtAccum(true));
    r.push(GroupId::RtPreview);
    assert(r@ =~= rebuilt_groups());
    r
}

/// Every group that samples a texture, or holds the voxel brick, is among those made anew.
pub proof fn law_no_group_is_left_stale(g: GroupId, i: int)
    requires
        group_exists(g),
        0 <= i < resources(g).len(),
        resources(g)[i] is Texture || resources(g)[i] == Resource::Buffer(BufferId::Brick),
    ensures
        rebuilt_groups().contains(g),
{
    let r = rebuilt_groups();
    match g {
        GroupId::SceneOpaque => assert(r[0] == g),
        GroupId::ShadowPass => assert(r[1] == g),
        GroupId::BloomExtract => assert(r[2] == g),
        GroupId::Meter => assert(r[3] == g),
        GroupId::BlurH => assert(r[4] == g),
        GroupId::BlurV => assert(r[5] == g),
        GroupId::Composite => assert(r[6] == g),
        GroupId::Trans => assert(r[7] == g),
        GroupId::Ssr => assert(r[8] == g),
        GroupId::OitComposite => assert(r[9] == g),
        GroupId::BlitDown(k) => assert(r[10 + k] == g),
        GroupId::BlitUp(k) => assert(r[15 + k] == g),
        GroupId::BlitUpWeighted(k) => assert(r[19 + k] == g),
        GroupId::BlitFinal => assert(r[23] == g),
        GroupId::BlurPyrH(k) => assert(r[24 + k] == g),
        GroupId::BlurPyrV(k) => assert(r[29 + k] == g),
        GroupId::RtScene => assert(r[34] == g),
        GroupId::RtAccum(side) => {
            assert(r[35] == GroupId::RtAccum(false));
            assert(r[36] == GroupId::RtAccum(true));
        },
        GroupId::RtPreview => assert(r[37] == g),
        _ => {},
    }
}

} // verus!
