//! Bind group layouts: the resources each pipeline expects, by binding number.

use vstd::prelude::*;

verus! {

/// What stands behind a binding.
#[derive(Clone, Copy, Debug, PartialEq, Eq, Structural)]
pub enum BindKind {
    StorageRead,
    StorageWrite,
    Uniform,
    FloatTexture,
    DepthTexture,
    FilterSampler,
    NearestSampler,
    CompareSampler,
}

/// Shader stages that see a binding.
#[derive(Clone, Copy, Debug, PartialEq, Eq, Structural)]
pub enum Stages {
    Vertex,
    Fragment,
    Both,
    Compute,
}

/// One binding of a layout.
#[derive(Clone, Copy, Debug, PartialEq, Eq, Structural)]
pub struct LayoutEntry {
    pub binding: u32,
    pub stages: Stages,
    pub kind: BindKind,
}

/// A bind group layout.
#[derive(Clone, Copy, Debug, PartialEq, Eq, Structural)]
pub enum LayoutId {
    /// Group 0 of the scene pipelines.
    Scene0,
    /// Group 1 of the transparent pipeline.
    Scene1,
    /// Group 0 of the shadow pipeline.
    ShadowVs,
    /// One texture and its sampler.
    PostBloom,
    /// One texture, its sampler and a parameter block.
    PostBlur,
    /// Everything the final tone mapping reads.
    PostComposite,
    /// One avatar's parameters.
    Avatar,
    /// The accumulated transparent layers and what they cover.
    OitComposite,
    /// Screen space reflections.
    Ssr,
    /// Scene data of the ray tracer.
    RtScene,
    /// The ray tracer's previous samples and parameters.
    RtAccum,
    /// One mascot's parameters, or the logo's.
    Mascot,
    /// One speech bubble's parameters.
    SpeechBubble,
    /// Buffers of the meshing kernel.
    MeshGreedy,
}

/// Stages and kinds of the bindings of a layout, in binding order.
pub open spec fn layout(id: LayoutId) -> Seq<(Stages, BindKind)> {
    match id {
        LayoutId::Scene0 => seq![
            (Stages::Both, BindKind::StorageRead),
            (Stages::Both, BindKind::StorageRead),
            (Stages::Fragment, BindKind::DepthTexture),
            (Stages::Fragment, BindKind::CompareSampler),
        ],
        LayoutId::Scene1 => seq![
            (Stages::Fragment, BindKind::FloatTexture),
            (Stages::Fragment, BindKind::FilterSampler),
            (Stages::Fragment, BindKind::DepthTexture),
            (Stages::Fragment, BindKind::NearestSampler),
            (Stages::Fragment, BindKind::Uniform),
        ],
        LayoutId::ShadowVs => seq![
            (Stages::Vertex, BindKind::StorageRead),
            (Stages::Vertex, BindKind::StorageRead),
        ],
        LayoutId::PostBloom => seq![
            (Stages::Fragment, BindKind::FloatTexture),
            (Stages::Fragment, BindKind::FilterSampler),
        ],
        LayoutId::PostBlur => seq![
            (Stages::Fragment, BindKind::FloatTexture),
            (Stages::Fragment, BindKind::FilterSampler),
            (Stages::Fragment, BindKind::Uniform),
        ],
        LayoutId::PostComposite => seq![
            (Stages::Fragment, BindKind::FloatTexture),
            (Stages::Fragment, BindKind::FloatTexture),
            (Stages::Fragment, BindKind::FilterSampler),
            (Stages::Fragment, BindKind::Uniform),
            (Stages::Fragment, BindKind::DepthTexture),
            (Stages::Fragment, BindKind::NearestSampler),
            (Stages::Fragment, BindKind::StorageRead),
        ],
        LayoutId::Avatar => seq![
            (Stages::Both, BindKind::Uniform),
        ],
        LayoutId::OitComposite => seq![
            (Stages::Fragment, BindKind::FloatTexture),
            (Stages::Fragment, BindKind::FloatTexture),
            (Stages::Fragment, BindKind::FloatTexture),
            (Stages::Fragment, BindKind::FilterSampler),
            (Stages::Fragment, BindKind::FloatTexture),
        ],
        LayoutId::Ssr => seq![
            (Stages::Fragment, BindKind::StorageRead),
            (Stages::Fragment, BindKind::DepthTexture),
            (Stages::Fragment, BindKind::FloatTexture),
            (Stages::Fragment, BindKind::FilterSampler),
            (Stages::Fragment, BindKind::NearestSampler),
            (Stages::Fragment, BindKind::Uniform),
            (Stages::Fragment, BindKind::FloatTexture),
        ],
        LayoutId::RtScene => seq![
            (Stages::Fragment, BindKind::StorageRead),
            (Stages::Fragment, BindKind::StorageRead),
        ],
        LayoutId::RtAccum => seq![
            (Stages::Fragment, BindKind::FloatTexture),
            (Stages::Fragment, BindKind::FilterSampler),
            (Stages::Fragment, BindKind::Uniform),
            (Stages::Fragment, BindKind::Uniform),
        ],
        LayoutId::Mascot => seq![
            (Stages::Both, BindKind::Uniform),
        ],
        LayoutId::SpeechBubble => seq![
            (Stages::Both, BindKind::Uniform),
        ],
        LayoutId::MeshGreedy => seq![
            (Stages::Compute, BindKind::Uniform),
            (Stages::Compute, BindKind::StorageRead),
            (Stages::Compute, BindKind::StorageRead),
            (Stages::Compute, BindKind::StorageWrite),
            (Stages::Compute, BindKind::StorageWrite),
            (Stages::Compute, BindKind::StorageWrite),
            (Stages::Compute, BindKind::StorageRead),
        ],
    }
}

/// Bindings numbered from zero on.
pub open spec fn numbered(s: Seq<(Stages, BindKind)>) -> Seq<LayoutEntry> {
    Seq::new(
        s.len(),
        |i: int| LayoutEntry { binding: i as u32, stages: s[i].0, kind: s[i].1 },
    )
}

fn entry(binding: u32, stages: Stages, kind: BindKind) -> (r: LayoutEntry)
    ensures
        r == (LayoutEntry { binding, stages, kind }),
{
    LayoutEntry { binding, stages, kind }
}

/// The bindings of a layout.
pub fn create_bind_group_layouts(id: LayoutId) -> (r: Vec<LayoutEntry>)
    ensures
        r@ == numbered(layout(id)),
{
    let r: Vec<LayoutEntry> = match id {
        LayoutId::Scene0 => vec![
            entry(0, Stages::Both, BindKind::StorageRead),
            entry(1, Stages::Both, BindKind::StorageRead),
            entry(2, Stages::Fragment, BindKind::DepthTexture),
            entry(3, Stages::Fragment, BindKind::CompareSampler),
        ],
        LayoutId::Scene1 => vec![
            entry(0, Stages::Fragment, BindKind::FloatTexture),
            entry(1, Stages::Fragment, BindKind::FilterSampler),
            entry(2, Stages::Fragment, BindKind::DepthTexture),
            entry(3, Stages::Fragment, BindKind::NearestSampler),
            entry(4, Stages::Fragment, BindKind::Uniform),
        ],
        LayoutId::ShadowVs => vec![
            entry(0, Stages::Vertex, BindKind::StorageRead),
            entry(1, Stages::Vertex, BindKind::StorageRead),
        ],
        LayoutId::PostBloom => vec![
            entry(0, Stages::Fragment, BindKind::FloatTexture),
            entry(1, Stages::Fragment, BindKind::FilterSampler),
        ],
        LayoutId::PostBlur => vec![
            entry(0, Stages::Fragment, BindKind::FloatTexture),
            entry(1, Stages::Fragment, BindKind::FilterSampler),
            entry(2, Stages::Fragment, BindKind::Uniform),
        ],
        LayoutId::PostComposite => vec![
            entry(0, Stages::Fragment, BindKind::FloatTexture),
            entry(1, Stages::Fragment, BindKind::FloatTexture),
            entry(2, Stages::Fragment, BindKind::FilterSampler),
            entry(3, Stages::Fragment, BindKind::Uniform),
            entry(4, Stages::Fragment, BindKind::DepthTexture),
            entry(5, Stages::Fragment, BindKind::NearestSampler),
            entry(6, Stages::Fragment, BindKind::StorageRead),
        ],
        LayoutId::Avatar => vec![
            entry(0, Stages::Both, BindKind::Uniform),
        ],
        LayoutId::OitComposite => vec![
            entry(0, Stages::Fragment, BindKind::FloatTexture),
            entry(1, Stages::Fragment, BindKind::FloatTexture),
            entry(2, Stages::Fragment, BindKind::FloatTexture),
            entry(3, Stages::Fragment, BindKind::FilterSampler),
            entry(4, Stages::Fragment, BindKind::FloatTexture),
        ],
        LayoutId::Ssr => vec![
            entry(0, Stages::Fragment, BindKind::StorageRead),
            entry(1, Stages::Fragment, BindKind::DepthTexture),
            entry(2, Stages::Fragment, BindKind::FloatTexture),
            entry(3, Stages::Fragment, BindKind::FilterSampler),
            entry(4, Stages::Fragment, BindKind::NearestSampler),
            entry(5, Stages::Fragment, BindKind::Uniform),
            entry(6, Stages::Fragment, BindKind::FloatTexture),
        ],
        LayoutId::RtScene => vec![
            entry(0, Stages::Fragment, BindKind::StorageRead),
            entry(1, Stages::Fragment, BindKind::StorageRead),
        ],
        LayoutId::RtAccum => vec![
            entry(0, Stages::Fragment, BindKind::FloatTexture),
            entry(1, Stages::Fragment, BindKind::FilterSampler),
            entry(2, Stages::Fragment, BindKind::Uniform),
            entry(3, Stages::Fragment, BindKind::Uniform),
        ],
        LayoutId::Mascot => vec![
            entry(0, Stages::Both, BindKind::Uniform),
        ],
        LayoutId::SpeechBubble => vec![
            entry(0, Stages::Both, BindKind::Uniform),
        ],
        LayoutId::MeshGreedy => vec![
            entry(0, Stages::Compute, BindKind::Uniform),
            entry(1, Stages::Compute, BindKind::StorageRead),
            entry(2, Stages::Compute, BindKind::StorageRead),
            entry(3, Stages::Compute, BindKind::StorageWrite),
            entry(4, Stages::Compute, BindKind::StorageWrite),
            entry(5, Stages::Compute, BindKind::StorageWrite),
            entry(6, Stages::Compute, BindKind::StorageRead),
        ],
    };
    assert(r@ =~= numbered(layout(id)));
    r
}

} // verus!
