//! Render pipelines: vertex input, layouts, targets and depth state of each.

use vstd::prelude::*;

use crate::render::layouts::LayoutId;
use crate::render::textures::TexelFormat;

verus! {

/// A render pipeline.
#[derive(Clone, Copy, Debug, PartialEq, Eq, Structural)]
pub enum PipelineId {
    /// Opaque surfaces.
    Opaque,
    /// Ghost of a preview behind the scene.
    PreviewOccluded,
    /// Ghost of a preview before the scene.
    PreviewFront,
    /// Edges of a preview, at their true depth.
    PreviewFrontWire,
    /// Instanced `PreviewOccluded`.
    PreviewInstOccluded,
    /// Instanced `PreviewFront`.
    PreviewInstFront,
    /// Instanced `PreviewFrontWire`.
    PreviewInstFrontWire,
    /// Lit generator preview behind the scene.
    GenPreviewInstOccluded,
    /// Lit generator preview before the scene.
    GenPreviewInstFront,
    /// Edges of a lit generator preview.
    GenPreviewInstFrontWire,
    /// Lines behind the scene.
    CollabLinesOccluded,
    /// Lines before the scene.
    CollabLinesFront,
    /// Grid borders; only where nothing hides them.
    GridBorderLines,
    /// Gizmo shafts and rings before the scene.
    GizmoLinesFront,
    /// Gizmo shafts and rings behind the scene.
    GizmoLinesOccluded,
    /// Gizmo arrowheads before the scene.
    GizmoTrisFront,
    /// Gizmo arrowheads behind the scene.
    GizmoTrisOccluded,
    /// Gizmo shafts and rings over everything.
    GizmoLinesAlways,
    /// Gizmo arrowheads over everything.
    GizmoTrisAlways,
    /// Avatars of the peers.
    Avatar,
    /// Sky behind the scene.
    Sky,
    /// Gradient behind the start screen.
    StartScreenBg,
    /// Transparent surfaces, visible from both sides.
    OitAccum,
    /// Transparent layers over the opaque picture.
    OitComposite,
    /// Depth as seen from the light.
    Shadow,
    /// Bright parts of the picture.
    BloomExtract,
    /// One direction of a blur.
    Blur,
    /// Plain copy with filtering.
    Blit,
    /// Weighted addition of a coarser level.
    BlitWeightedAdd,
    /// Tone mapping.
    Composite,
    /// Average luminance.
    Meter,
    /// Reflections on metal.
    SsrFullscreen,
    /// One more sample per pixel.
    Raytrace,
    /// Mascots and the logo.
    Mascot,
    /// Speech bubbles.
    SpeechBubble,
}

/// A shader module.
#[derive(Clone, Copy, Debug, PartialEq, Eq, Structural)]
pub enum ShaderId {
    Scene,
    CollabPeerLines,
    Avatar,
    Sky,
    StartScreenBg,
    OitComposite,
    Shadow,
    BloomExtract,
    Blur,
    Blit,
    Composite,
    Meter,
    Ssr,
    RayTrace,
    Mascot,
    SpeechBubble,
}

/// Vertex buffers of a pipeline; `Fullscreen` has none and covers the target.
#[derive(Clone, Copy, Debug, PartialEq, Eq, Structural)]
pub enum VertexInput {
    Fullscreen,
    Opaque,
    Mascot,
    Lines,
    /// A prototype vertex and an instance.
    Instanced,
}

/// How a colour meets what is there.
#[derive(Clone, Copy, Debug, PartialEq, Eq, Structural)]
pub enum Blend {
    Replace,
    /// By source alpha; the alpha that is there stays.
    Preview,
    Additive,
    /// What is there times one minus the source.
    Revealage,
    Alpha,
}

/// When a fragment passes the depth test.
#[derive(Clone, Copy, Debug, PartialEq, Eq, Structural)]
pub enum DepthCompare {
    Less,
    LessEqual,
    Greater,
    Always,
}

/// Depth state; the slope bias counts halves.
#[derive(Clone, Copy, Debug, PartialEq, Eq, Structural)]
pub struct DepthState {
    pub write: bool,
    pub compare: DepthCompare,
    pub bias: i32,
    pub slope_halves: i32,
}

/// One colour target.
#[derive(Clone, Copy, Debug, PartialEq, Eq, Structural)]
pub struct ColorTarget {
    pub format: TexelFormat,
    pub blend: Blend,
    pub write: bool,
}

/// State of a pipeline.
#[derive(Clone, Copy, Debug, PartialEq, Eq, Structural)]
pub struct PipelineState {
    pub shader: ShaderId,
    pub vertices: VertexInput,
    pub group0: LayoutId,
    pub group1: Option<LayoutId>,
    pub target0: Option<ColorTarget>,
    pub target1: Option<ColorTarget>,
    pub depth: Option<DepthState>,
    pub cull_back: bool,
    pub lines: bool,
}

/// Depth state of the given parts.
pub open spec fn depth_of(write: bool, compare: DepthCompare, bias: int, slope_halves: int) -> DepthState {
    DepthState { write, compare, bias: bias as i32, slope_halves: slope_halves as i32 }
}

/// State of a pipeline under the format of the surface and its standard range format.
pub open spec fn state_of(p: PipelineId, surface: u32, sdr: u32) -> PipelineState {
    match p {
        PipelineId::Opaque => PipelineState {
            shader: ShaderId::Scene,
            vertices: VertexInput::Opaque,
            group0: LayoutId::Scene0,
            group1: None,
            target0: Some(ColorTarget { format: TexelFormat::Rgba16Float, blend: Blend::Replace, write: true }),
            target1: Some(ColorTarget { format: TexelFormat::Rgba16Float, blend: Blend::Replace, write: true }),
            depth: Some(depth_of(true, DepthCompare::Less, 0, 0)),
            cull_back: true,
            lines: false,
        },
        PipelineId::PreviewOccluded => PipelineState {
            shader: ShaderId::Scene,
            vertices: VertexInput::Opaque,
            group0: LayoutId::Scene0,
            group1: None,
            target0: Some(ColorTarget { format: TexelFormat::Rgba16Float, blend: Blend::Preview, write: true }),
            target1: Some(ColorTarget { format: TexelFormat::Rgba16Float, blend: Blend::Replace, write: false }),
            depth: Some(depth_of(false, DepthCompare::Greater, 1, 2)),
            cull_back: true,
            lines: false,
        },
        PipelineId::PreviewFront => PipelineState {
            shader: ShaderId::Scene,
            vertices: VertexInput::Opaque,
            group0: LayoutId::Scene0,
            group1: None,
            target0: Some(ColorTarget { format: TexelFormat::Rgba16Float, blend: Blend::Preview, write: true }),
            target1: Some(ColorTarget { format: TexelFormat::Rgba16Float, blend: Blend::Replace, write: false }),
            depth: Some(depth_of(false, DepthCompare::LessEqual, -2, -1)),
            cull_back: true,
            lines: false,
        },
        PipelineId::PreviewFrontWire => PipelineState {
            shader: ShaderId::Scene,
            vertices: VertexInput::Opaque,
            group0: LayoutId::Scene0,
            group1: None,
            target0: Some(ColorTarget { format: TexelFormat::Rgba16Float, blend: Blend::Preview, write: true }),
            target1: Some(ColorTarget { format: TexelFormat::Rgba16Float, blend: Blend::Replace, write: false }),
            depth: Some(depth_of(false, DepthCompare::LessEqual, 0, 0)),
            cull_back: true,
            lines: false,
        },
        PipelineId::PreviewInstOccluded => PipelineState {
            shader: ShaderId::Scene,
            vertices: VertexInput::Instanced,
            group0: LayoutId::Scene0,
            group1: None,
            target0: Some(ColorTarget { format: TexelFormat::Rgba16Float, blend: Blend::Preview, write: true }),
            target1: Some(ColorTarget { format: TexelFormat::Rgba16Float, blend: Blend::Replace, write: false }),
            depth: Some(depth_of(false, DepthCompare::Greater, 1, 2)),
            cull_back: true,
            lines: false,
        },
        PipelineId::PreviewInstFront => PipelineState {
            shader: ShaderId::Scene,
            vertices: VertexInput::Instanced,
            group0: LayoutId::Scene0,
            group1: None,
            target0: Some(ColorTarget { format: TexelFormat::Rgba16Float, blend: Blend::Preview, write: true }),
            target1: Some(ColorTarget { format: TexelFormat::Rgba16Float, blend: Blend::Replace, write: false }),
            depth: Some(depth_of(false, DepthCompare::LessEqual, -2, -1)),
            cull_back: true,
            lines: false,
        },
        PipelineId::PreviewInstFrontWire => PipelineState {
            shader: ShaderId::Scene,
            vertices: VertexInput::Instanced,
            group0: LayoutId::Scene0,
            group1: None,
            target0: Some(ColorTarget { format: TexelFormat::Rgba16Float, blend: Blend::Preview, write: true }),
            target1: Some(ColorTarget { format: TexelFormat::Rgba16Float, blend: Blend::Replace, write: false }),
            depth: Some(depth_of(false, DepthCompare::LessEqual, 0, 0)),
            cull_back: true,
            lines: false,
        },
        PipelineId::GenPreviewInstOccluded => PipelineState {
            shader: ShaderId::Scene,
            vertices: VertexInput::Instanced,
            group0: LayoutId::Scene0,
            group1: None,
            target0: Some(ColorTarget { format: TexelFormat::Rgba16Float, blend: Blend::Preview, write: true }),
            target1: Some(ColorTarget { format: TexelFormat::Rgba16Float, blend: Blend::Replace, write: false }),
            depth: Some(depth_of(false, DepthCompare::Greater, 1, 2)),
            cull_back: true,
            lines: false,
        },
        PipelineId::GenPreviewInstFront => PipelineState {
            shader: ShaderId::Scene,
            vertices: VertexInput::Instanced,
            group0: LayoutId::Scene0,
            group1: None,
            target0: Some(ColorTarget { format: TexelFormat::Rgba16Float, blend: Blend::Preview, write: true }),
            target1: Some(ColorTarget { format: TexelFormat::Rgba16Float, blend: Blend::Replace, write: false }),
            depth: Some(depth_of(true, DepthCompare::LessEqual, -2, -1)),
            cull_back: true,
            lines: false,
        },
        PipelineId::GenPreviewInstFrontWire => PipelineState {
            shader: ShaderId::Scene,
            vertices: VertexInput::Instanced,
            group0: LayoutId::Scene0,
            group1: None,
            target0: Some(ColorTarget { format: TexelFormat::Rgba16Float, blend: Blend::Preview, write: true }),
            target1: Some(ColorTarget { format: TexelFormat::Rgba16Float, blend: Blend::Replace, write: false }),
            depth: Some(depth_of(false, DepthCompare::LessEqual, 0, 0)),
            cull_back: true,
            lines: false,
        },
        PipelineId::CollabLinesOccluded => PipelineState {
            shader: ShaderId::CollabPeerLines,
            vertices: VertexInput::Lines,
            group0: LayoutId::Scene0,
            group1: None,
            target0: Some(ColorTarget { format: TexelFormat::Rgba16Float, blend: Blend::Preview, write: true }),
            target1: Some(ColorTarget { format: TexelFormat::Rgba16Float, blend: Blend::Replace, write: false }),
            depth: Some(depth_of(false, DepthCompare::Greater, 1, 2)),
            cull_back: false,
            lines: true,
        },
        PipelineId::CollabLinesFront => PipelineState {
            shader: ShaderId::CollabPeerLines,
            vertices: VertexInput::Lines,
            group0: LayoutId::Scene0,
            group1: None,
            target0: Some(ColorTarget { format: TexelFormat::Rgba16Float, blend: Blend::Preview, write: true }),
            target1: Some(ColorTarget { format: TexelFormat::Rgba16Float, blend: Blend::Replace, write: false }),
            depth: Some(depth_of(false, DepthCompare::LessEqual, -2, -1)),
            cull_back: false,
            lines: true,
        },
        PipelineId::GridBorderLines => PipelineState {
            shader: ShaderId::CollabPeerLines,
            vertices: VertexInput::Lines,
            group0: LayoutId::Scene0,
            group1: None,
            target0: Some(ColorTarget { format: TexelFormat::Rgba16Float, blend: Blend::Preview, write: true }),
            target1: Some(ColorTarget { format: TexelFormat::Rgba16Float, blend: Blend::Replace, write: false }),
            depth: Some(depth_of(false, DepthCompare::LessEqual, -2, -1)),
            cull_back: false,
            lines: true,
        },
        PipelineId::GizmoLinesFront => PipelineState {
            shader: ShaderId::CollabPeerLines,
            vertices: VertexInput::Lines,
            group0: LayoutId::Scene0,
            group1: None,
            target0: Some(ColorTarget { format: TexelFormat::Rgba16Float, blend: Blend::Preview, write: true }),
            target1: Some(ColorTarget { format: TexelFormat::Rgba16Float, blend: Blend::Replace, write: false }),
            depth: Some(depth_of(false, DepthCompare::LessEqual, -2, -1)),
            cull_back: false,
            lines: false,
        },
        PipelineId::GizmoLinesOccluded => PipelineState {
            shader: ShaderId::CollabPeerLines,
            vertices: VertexInput::Lines,
            group0: LayoutId::Scene0,
            group1: None,
            target0: Some(ColorTarget { format: TexelFormat::Rgba16Float, blend: Blend::Preview, write: true }),
            target1: Some(ColorTarget { format: TexelFormat::Rgba16Float, blend: Blend::Replace, write: false }),
            depth: Some(depth_of(false, DepthCompare::Greater, 1, 2)),
            cull_back: false,
            lines: false,
        },
        PipelineId::GizmoTrisFront => PipelineState {
            shader: ShaderId::CollabPeerLines,
            vertices: VertexInput::Lines,
            group0: LayoutId::Scene0,
            group1: None,
            target0: Some(ColorTarget { format: TexelFormat::Rgba16Float, blend: Blend::Preview, write: true }),
            target1: Some(ColorTarget { format: TexelFormat::Rgba16Float, blend: Blend::Replace, write: false }),
            depth: Some(depth_of(false, DepthCompare::LessEqual, -4, -2)),
            cull_back: false,
            lines: false,
        },
        PipelineId::GizmoTrisOccluded => PipelineState {
            shader: ShaderId::CollabPeerLines,
            vertices: VertexInput::Lines,
            group0: LayoutId::Scene0,
            group1: None,
            target0: Some(ColorTarget { format: TexelFormat::Rgba16Float, blend: Blend::Preview, write: true }),
            target1: Some(ColorTarget { format: TexelFormat::Rgba16Float, blend: Blend::Replace, write: false }),
            depth: Some(depth_of(false, DepthCompare::Greater, 1, 2)),
            cull_back: false,
            lines: false,
        },
        PipelineId::GizmoLinesAlways => PipelineState {
            shader: ShaderId::CollabPeerLines,
            vertices: VertexInput::Lines,
            group0: LayoutId::Scene0,
            group1: None,
            target0: Some(ColorTarget { format: TexelFormat::Rgba16Float, blend: Blend::Preview, write: true }),
            target1: Some(ColorTarget { format: TexelFormat::Rgba16Float, blend: Blend::Replace, write: false }),
            depth: Some(depth_of(false, DepthCompare::Always, 0, 0)),
            cull_back: false,
            lines: false,
        },
        PipelineId::GizmoTrisAlways => PipelineState {
            shader: ShaderId::CollabPeerLines,
            vertices: VertexInput::Lines,
            group0: LayoutId::Scene0,
            group1: None,
            target0: Some(ColorTarget { format: TexelFormat::Rgba16Float, blend: Blend::Preview, write: true }),
            target1: Some(ColorTarget { format: TexelFormat::Rgba16Float, blend: Blend::Replace, write: false }),
            depth: Some(depth_of(false, DepthCompare::Always, 0, 0)),
            cull_back: false,
            lines: false,
        },
        PipelineId::Avatar => PipelineState {
            shader: ShaderId::Avatar,
            vertices: VertexInput::Opaque,
            group0: LayoutId::Avatar,
            group1: None,
            target0: Some(ColorTarget { format: TexelFormat::Rgba16Float, blend: Blend::Replace, write: true }),
            target1: Some(ColorTarget { format: TexelFormat::Rgba16Float, blend: Blend::Replace, write: true }),
            depth: Some(depth_of(true, DepthCompare::LessEqual, 0, 0)),
            cull_back: true,
            lines: false,
        },
        PipelineId::Sky => PipelineState {
            shader: ShaderId::Sky,
            vertices: VertexInput::Fullscreen,
            group0: LayoutId::Scene0,
            group1: None,
            target0: Some(ColorTarget { format: TexelFormat::Rgba16Float, blend: Blend::Replace, write: true }),
            target1: Some(ColorTarget { format: TexelFormat::Rgba16Float, blend: Blend::Replace, write: true }),
            depth: Some(depth_of(false, DepthCompare::Always, 0, 0)),
            cull_back: false,
            lines: false,
        },
        PipelineId::StartScreenBg => PipelineState {
            shader: ShaderId::StartScreenBg,
            vertices: VertexInput::Fullscreen,
            group0: LayoutId::Scene0,
            group1: None,
            target0: Some(ColorTarget { format: TexelFormat::Rgba16Float, blend: Blend::Replace, write: true }),
            target1: Some(ColorTarget { format: TexelFormat::Rgba16Float, blend: Blend::Replace, write: true }),
            depth: Some(depth_of(false, DepthCompare::Always, 0, 0)),
            cull_back: false,
            lines: false,
        },
        PipelineId::OitAccum => PipelineState {
            shader: ShaderId::Scene,
            vertices: VertexInput::Opaque,
            group0: LayoutId::Scene0,
            group1: Some(LayoutId::Scene1),
            target0: Some(ColorTarget { format: TexelFormat::Rgba16Float, blend: Blend::Additive, write: true }),
            target1: Some(ColorTarget { format: TexelFormat::R16Float, blend: Blend::Revealage, write: true }),
            depth: Some(depth_of(false, DepthCompare::LessEqual, -2, -2)),
            cull_back: false,
            lines: false,
        },
        PipelineId::OitComposite => PipelineState {
            shader: ShaderId::OitComposite,
            vertices: VertexInput::Fullscreen,
            group0: LayoutId::OitComposite,
            group1: None,
            target0: Some(ColorTarget { format: TexelFormat::Rgba16Float, blend: Blend::Replace, write: true }),
            target1: None,
            depth: None,
            cull_back: false,
            lines: false,
        },
        PipelineId::Shadow => PipelineState {
            shader: ShaderId::Shadow,
            vertices: VertexInput::Opaque,
            group0: LayoutId::ShadowVs,
            group1: None,
            target0: None,
            target1: None,
            depth: Some(depth_of(true, DepthCompare::Less, 2, 4)),
            cull_back: true,
            lines: false,
        },
        PipelineId::BloomExtract => PipelineState {
            shader: ShaderId::BloomExtract,
            vertices: VertexInput::Fullscreen,
            group0: LayoutId::PostBlur,
            group1: None,
            target0: Some(ColorTarget { format: TexelFormat::Rgba16Float, blend: Blend::Replace, write: true }),
            target1: None,
            depth: None,
            cull_back: false,
            lines: false,
        },
        PipelineId::Blur => PipelineState {
            shader: ShaderId::Blur,
            vertices: VertexInput::Fullscreen,
            group0: LayoutId::PostBlur,
            group1: None,
            target0: Some(ColorTarget { format: TexelFormat::Rgba16Float, blend: Blend::Replace, write: true }),
            target1: None,
            depth: None,
            cull_back: false,
            lines: false,
        },
        PipelineId::Blit => PipelineState {
            shader: ShaderId::Blit,
            vertices: VertexInput::Fullscreen,
            group0: LayoutId::PostBloom,
            group1: None,
            target0: Some(ColorTarget { format: TexelFormat::Rgba16Float, blend: Blend::Replace, write: true }),
            target1: None,
            depth: None,
            cull_back: false,
            lines: false,
        },
        PipelineId::BlitWeightedAdd => PipelineState {
            shader: ShaderId::Blit,
            vertices: VertexInput::Fullscreen,
            group0: LayoutId::PostBlur,
            group1: None,
            target0: Some(ColorTarget { format: TexelFormat::Rgba16Float, blend: Blend::Additive, write: true }),
            target1: None,
            depth: None,
            cull_back: false,
            lines: false,
        },
        PipelineId::Composite => PipelineState {
            shader: ShaderId::Composite,
            vertices: VertexInput::Fullscreen,
            group0: LayoutId::PostComposite,
            group1: None,
            target0: Some(ColorTarget { format: TexelFormat::Surface(surface), blend: Blend::Replace, write: true }),
            target1: None,
            depth: None,
            cull_back: false,
            lines: false,
        },
        PipelineId::Meter => PipelineState {
            shader: ShaderId::Meter,
            vertices: VertexInput::Fullscreen,
            group0: LayoutId::PostBloom,
            group1: None,
            target0: Some(ColorTarget { format: TexelFormat::R32Float, blend: Blend::Replace, write: true }),
            target1: None,
            depth: None,
            cull_back: false,
            lines: false,
        },
        PipelineId::SsrFullscreen => PipelineState {
            shader: ShaderId::Ssr,
            vertices: VertexInput::Fullscreen,
            group0: LayoutId::Ssr,
            group1: None,
            target0: Some(ColorTarget { format: TexelFormat::Rgba16Float, blend: Blend::Replace, write: true }),
            target1: None,
            depth: None,
            cull_back: false,
            lines: false,
        },
        PipelineId::Raytrace => PipelineState {
            shader: ShaderId::RayTrace,
            vertices: VertexInput::Fullscreen,
            group0: LayoutId::RtScene,
            group1: Some(LayoutId::RtAccum),
            target0: Some(ColorTarget { format: TexelFormat::Rgba16Float, blend: Blend::Replace, write: true }),
            target1: None,
            depth: None,
            cull_back: false,
            lines: false,
        },
        PipelineId::Mascot => PipelineState {
            shader: ShaderId::Mascot,
            vertices: VertexInput::Mascot,
            group0: LayoutId::Mascot,
            group1: None,
            target0: Some(ColorTarget { format: TexelFormat::Surface(sdr), blend: Blend::Replace, write: true }),
            target1: None,
            depth: Some(depth_of(true, DepthCompare::Less, 0, 0)),
            cull_back: true,
            lines: false,
        },
        PipelineId::SpeechBubble => PipelineState {
            shader: ShaderId::SpeechBubble,
            vertices: VertexInput::Fullscreen,
            group0: LayoutId::SpeechBubble,
            group1: None,
            target0: Some(ColorTarget { format: TexelFormat::Surface(sdr), blend: Blend::Alpha, write: true }),
            target1: None,
            depth: None,
            cull_back: false,
            lines: false,
        },
    }
}

/// Name of the vertex stage of a pipeline.
pub open spec fn vertex_entry_of(p: PipelineId) -> Seq<char> {
    match p {
        PipelineId::Opaque => "vs_main"@,
        PipelineId::PreviewOccluded => "vs_main"@,
        PipelineId::PreviewFront => "vs_main"@,
        PipelineId::PreviewFrontWire => "vs_main"@,
        PipelineId::PreviewInstOccluded => "vs_preview_instanced"@,
        PipelineId::PreviewInstFront => "vs_preview_instanced"@,
        PipelineId::PreviewInstFrontWire => "vs_preview_instanced"@,
        PipelineId::GenPreviewInstOccluded => "vs_preview_instanced"@,
        PipelineId::GenPreviewInstFront => "vs_preview_instanced"@,
        PipelineId::GenPreviewInstFrontWire => "vs_preview_instanced"@,
        PipelineId::CollabLinesOccluded => "vs_main"@,
        PipelineId::CollabLinesFront => "vs_main"@,
        PipelineId::GridBorderLines => "vs_main"@,
        PipelineId::GizmoLinesFront => "vs_main"@,
        PipelineId::GizmoLinesOccluded => "vs_main"@,
        PipelineId::GizmoTrisFront => "vs_main"@,
        PipelineId::GizmoTrisOccluded => "vs_main"@,
        PipelineId::GizmoLinesAlways => "vs_main"@,
        PipelineId::GizmoTrisAlways => "vs_main"@,
        PipelineId::Avatar => "vs_avatar"@,
        PipelineId::Sky => "vs_fullscreen"@,
        PipelineId::StartScreenBg => "vs_fullscreen"@,
        PipelineId::OitAccum => "vs_main"@,
        PipelineId::OitComposite => "vs_fullscreen"@,
        PipelineId::Shadow => "vs_shadow"@,
        PipelineId::BloomExtract => "vs_fullscreen"@,
        PipelineId::Blur => "vs_fullscreen"@,
        PipelineId::Blit => "vs_fullscreen"@,
        PipelineId::BlitWeightedAdd => "vs_fullscreen"@,
        PipelineId::Composite => "vs_fullscreen"@,
        PipelineId::Meter => "vs_fullscreen"@,
        PipelineId::SsrFullscreen => "vs_fullscreen"@,
        PipelineId::Raytrace => "vs_fullscreen"@,
        PipelineId::Mascot => "vs_mascot"@,
        PipelineId::SpeechBubble => "vs_bubble"@,
    }
}

/// Name of the fragment stage of a pipeline that has one.
pub open spec fn fragment_entry_of(p: PipelineId) -> Option<Seq<char>> {
    match p {
        PipelineId::Opaque => Some("fs_opaque_mrt"@),
        PipelineId::PreviewOccluded => Some("fs_preview_occluded_mrt"@),
        PipelineId::PreviewFront => Some("fs_preview_front_mrt"@),
        PipelineId::PreviewFrontWire => Some("fs_preview_front_mrt"@),
        PipelineId::PreviewInstOccluded => Some("fs_preview_occluded_mrt"@),
        PipelineId::PreviewInstFront => Some("fs_preview_front_mrt"@),
        PipelineId::PreviewInstFrontWire => Some("fs_preview_front_mrt"@),
        PipelineId::GenPreviewInstOccluded => Some("fs_preview_lit_occluded_mrt"@),
        PipelineId::GenPreviewInstFront => Some("fs_preview_lit_mrt"@),
        PipelineId::GenPreviewInstFrontWire => Some("fs_preview_lit_mrt"@),
        PipelineId::CollabLinesOccluded => Some("fs_collab_line_occluded"@),
        PipelineId::CollabLinesFront => Some("fs_collab_line_front"@),
        PipelineId::GridBorderLines => Some("fs_grid_border_line"@),
        PipelineId::GizmoLinesFront => Some("fs_gizmo_front"@),
        PipelineId::GizmoLinesOccluded => Some("fs_gizmo_occluded"@),
        PipelineId::GizmoTrisFront => Some("fs_gizmo_front"@),
        PipelineId::GizmoTrisOccluded => Some("fs_gizmo_occluded"@),
        PipelineId::GizmoLinesAlways => Some("fs_gizmo_front"@),
        PipelineId::GizmoTrisAlways => Some("fs_gizmo_front"@),
        PipelineId::Avatar => Some("fs_avatar"@),
        PipelineId::Sky => Some("fs_sky_mrt"@),
        PipelineId::StartScreenBg => Some("fs_start_screen_mrt"@),
        PipelineId::OitAccum => Some("fs_oit_accum"@),
        PipelineId::OitComposite => Some("fs_oit_composite"@),
        PipelineId::Shadow => None,
        PipelineId::BloomExtract => Some("fs_bloom_extract"@),
        PipelineId::Blur => Some("fs_blur"@),
        PipelineId::Blit => Some("fs_blit"@),
        PipelineId::BlitWeightedAdd => Some("fs_blit_weighted"@),
        PipelineId::Composite => Some("fs_composite"@),
        PipelineId::Meter => Some("fs_meter"@),
        PipelineId::SsrFullscreen => Some("fs_ssr"@),
        PipelineId::Raytrace => Some("fs_trace"@),
        PipelineId::Mascot => Some("fs_mascot"@),
        PipelineId::SpeechBubble => Some("fs_bubble"@),
    }
}

fn depth(write: bool, compare: DepthCompare, bias: i32, slope_halves: i32) -> (r: DepthState)
    ensures
        r == depth_of(write, compare, bias as int, slope_halves as int),
{
    DepthState { write, compare, bias, slope_halves }
}

/// State of a pipeline under the format of the surface and its standard range format.
pub fn pipeline_state(p: PipelineId, surface: u32, sdr: u32) -> (r: PipelineState)
    ensures
        r == state_of(p, surface, sdr),
{
    match p {
        PipelineId::Opaque => PipelineState {
            shader: ShaderId::Scene,
            vertices: VertexInput::Opaque,
            group0: LayoutId::Scene0,
            group1: None,
            target0: Some(ColorTarget { format: TexelFormat::Rgba16Float, blend: Blend::Replace, write: true }),
            target1: Some(ColorTarget { format: TexelFormat::Rgba16Float, blend: Blend::Replace, write: true }),
            depth: Some(depth(true, DepthCompare::Less, 0, 0)),
            cull_back: true,
            lines: false,
        },
        PipelineId::PreviewOccluded => PipelineState {
            shader: ShaderId::Scene,
            vertices: VertexInput::Opaque,
            group0: LayoutId::Scene0,
            group1: None,
            target0: Some(ColorTarget { format: TexelFormat::Rgba16Float, blend: Blend::Preview, write: true }),
            target1: Some(ColorTarget { format: TexelFormat::Rgba16Float, blend: Blend::Replace, write: false }),
            depth: Some(depth(false, DepthCompare::Greater, 1, 2)),
            cull_back: true,
            lines: false,
        },
        PipelineId::PreviewFront => PipelineState {
            shader: ShaderId::Scene,
            vertices: VertexInput::Opaque,
            group0: LayoutId::Scene0,
            group1: None,
            target0: Some(ColorTarget { format: TexelFormat::Rgba16Float, blend: Blend::Preview, write: true }),
            target1: Some(ColorTarget { format: TexelFormat::Rgba16Float, blend: Blend::Replace, write: false }),
            depth: Some(depth(false, DepthCompare::LessEqual, -2, -1)),
            cull_back: true,
            lines: false,
        },
        PipelineId::PreviewFrontWire => PipelineState {
            shader: ShaderId::Scene,
            vertices: VertexInput::Opaque,
            group0: LayoutId::Scene0,
            group1: None,
            target0: Some(ColorTarget { format: TexelFormat::Rgba16Float, blend: Blend::Preview, write: true }),
            target1: Some(ColorTarget { format: TexelFormat::Rgba16Float, blend: Blend::Replace, write: false }),
            depth: Some(depth(false, DepthCompare::LessEqual, 0, 0)),
            cull_back: true,
            lines: false,
        },
        PipelineId::PreviewInstOccluded => PipelineState {
            shader: ShaderId::Scene,
            vertices: VertexInput::Instanced,
            group0: LayoutId::Scene0,
            group1: None,
            target0: Some(ColorTarget { format: TexelFormat::Rgba16Float, blend: Blend::Preview, write: true }),
            target1: Some(ColorTarget { format: TexelFormat::Rgba16Float, blend: Blend::Replace, write: false }),
            depth: Some(depth(false, DepthCompare::Greater, 1, 2)),
            cull_back: true,
            lines: false,
        },
        PipelineId::PreviewInstFront => PipelineState {
            shader: ShaderId::Scene,
            vertices: VertexInput::Instanced,
            group0: LayoutId::Scene0,
            group1: None,
            target0: Some(ColorTarget { format: TexelFormat::Rgba16Float, blend: Blend::Preview, write: true }),
            target1: Some(ColorTarget { format: TexelFormat::Rgba16Float, blend: Blend::Replace, write: false }),
            depth: Some(depth(false, DepthCompare::LessEqual, -2, -1)),
            cull_back: true,
            lines: false,
        },
        PipelineId::PreviewInstFrontWire => PipelineState {
            shader: ShaderId::Scene,
            vertices: VertexInput::Instanced,
            group0: LayoutId::Scene0,
            group1: None,
            target0: Some(ColorTarget { format: TexelFormat::Rgba16Float, blend: Blend::Preview, write: true }),
            target1: Some(ColorTarget { format: TexelFormat::Rgba16Float, blend: Blend::Replace, write: false }),
            depth: Some(depth(false, DepthCompare::LessEqual, 0, 0)),
            cull_back: true,
            lines: false,
        },
        PipelineId::GenPreviewInstOccluded => PipelineState {
            shader: ShaderId::Scene,
            vertices: VertexInput::Instanced,
            group0: LayoutId::Scene0,
            group1: None,
            target0: Some(ColorTarget { format: TexelFormat::Rgba16Float, blend: Blend::Preview, write: true }),
            target1: Some(ColorTarget { format: TexelFormat::Rgba16Float, blend: Blend::Replace, write: false }),
            depth: Some(depth(false, DepthCompare::Greater, 1, 2)),
            cull_back: true,
            lines: false,
        },
        PipelineId::GenPreviewInstFront => PipelineState {
            shader: ShaderId::Scene,
            vertices: VertexInput::Instanced,
            group0: LayoutId::Scene0,
            group1: None,
            target0: Some(ColorTarget { format: TexelFormat::Rgba16Float, blend: Blend::Preview, write: true }),
            target1: Some(ColorTarget { format: TexelFormat::Rgba16Float, blend: Blend::Replace, write: false }),
            depth: Some(depth(true, DepthCompare::LessEqual, -2, -1)),
            cull_back: true,
            lines: false,
        },
        PipelineId::GenPreviewInstFrontWire => PipelineState {
            shader: ShaderId::Scene,
            vertices: VertexInput::Instanced,
            group0: LayoutId::Scene0,
            group1: None,
            target0: Some(ColorTarget { format: TexelFormat::Rgba16Float, blend: Blend::Preview, write: true }),
            target1: Some(ColorTarget { format: TexelFormat::Rgba16Float, blend: Blend::Replace, write: false }),
            depth: Some(depth(false, DepthCompare::LessEqual, 0, 0)),
            cull_back: true,
            lines: false,
        },
        PipelineId::CollabLinesOccluded => PipelineState {
            shader: ShaderId::CollabPeerLines,
            vertices: VertexInput::Lines,
            group0: LayoutId::Scene0,
            group1: None,
            target0: Some(ColorTarget { format: TexelFormat::Rgba16Float, blend: Blend::Preview, write: true }),
            target1: Some(ColorTarget { format: TexelFormat::Rgba16Float, blend: Blend::Replace, write: false }),
            depth: Some(depth(false, DepthCompare::Greater, 1, 2)),
            cull_back: false,
            lines: true,
        },
        PipelineId::CollabLinesFront => PipelineState {
            shader: ShaderId::CollabPeerLines,
            vertices: VertexInput::Lines,
            group0: LayoutId::Scene0,
            group1: None,
            target0: Some(ColorTarget { format: TexelFormat::Rgba16Float, blend: Blend::Preview, write: true }),
            target1: Some(ColorTarget { format: TexelFormat::Rgba16Float, blend: Blend::Replace, write: false }),
            depth: Some(depth(false, DepthCompare::LessEqual, -2, -1)),
            cull_back: false,
            lines: true,
        },
        PipelineId::GridBorderLines => PipelineState {
            shader: ShaderId::CollabPeerLines,
            vertices: VertexInput::Lines,
            group0: LayoutId::Scene0,
            group1: None,
            target0: Some(ColorTarget { format: TexelFormat::Rgba16Float, blend: Blend::Preview, write: true }),
            target1: Some(ColorTarget { format: TexelFormat::Rgba16Float, blend: Blend::Replace, write: false }),
            depth: Some(depth(false, DepthCompare::LessEqual, -2, -1)),
            cull_back: false,
            lines: true,
        },
        PipelineId::GizmoLinesFront => PipelineState {
            shader: ShaderId::CollabPeerLines,
            vertices: VertexInput::Lines,
            group0: LayoutId::Scene0,
            group1: None,
            target0: Some(ColorTarget { format: TexelFormat::Rgba16Float, blend: Blend::Preview, write: true }),
            target1: Some(ColorTarget { format: TexelFormat::Rgba16Float, blend: Blend::Replace, write: false }),
            depth: Some(depth(false, DepthCompare::LessEqual, -2, -1)),
            cull_back: false,
            lines: false,
        },
        PipelineId::GizmoLinesOccluded => PipelineState {
            shader: ShaderId::CollabPeerLines,
            vertices: VertexInput::Lines,
            group0: LayoutId::Scene0,
            group1: None,
            target0: Some(ColorTarget { format: TexelFormat::Rgba16Float, blend: Blend::Preview, write: true }),
            target1: Some(ColorTarget { format: TexelFormat::Rgba16Float, blend: Blend::Replace, write: false }),
            depth: Some(depth(false, DepthCompare::Greater, 1, 2)),
            cull_back: false,
            lines: false,
        },
        PipelineId::GizmoTrisFront => PipelineState {
            shader: ShaderId::CollabPeerLines,
            vertices: VertexInput::Lines,
            group0: LayoutId::Scene0,
            group1: None,
            target0: Some(ColorTarget { format: TexelFormat::Rgba16Float, blend: Blend::Preview, write: true }),
            target1: Some(ColorTarget { format: TexelFormat::Rgba16Float, blend: Blend::Replace, write: false }),
            depth: Some(depth(false, DepthCompare::LessEqual, -4, -2)),
            cull_back: false,
            lines: false,
        },
        PipelineId::GizmoTrisOccluded => PipelineState {
            shader: ShaderId::CollabPeerLines,
            vertices: VertexInput::Lines,
            group0: LayoutId::Scene0,
            group1: None,
            target0: Some(ColorTarget { format: TexelFormat::Rgba16Float, blend: Blend::Preview, write: true }),
            target1: Some(ColorTarget { format: TexelFormat::Rgba16Float, blend: Blend::Replace, write: false }),
            depth: Some(depth(false, DepthCompare::Greater, 1, 2)),
            cull_back: false,
            lines: false,
        },
        PipelineId::GizmoLinesAlways => PipelineState {
            shader: ShaderId::CollabPeerLines,
            vertices: VertexInput::Lines,
            group0: LayoutId::Scene0,
            group1: None,
            target0: Some(ColorTarget { format: TexelFormat::Rgba16Float, blend: Blend::Preview, write: true }),
            target1: Some(ColorTarget { format: TexelFormat::Rgba16Float, blend: Blend::Replace, write: false }),
            depth: Some(depth(false, DepthCompare::Always, 0, 0)),
            cull_back: false,
            lines: false,
        },
        PipelineId::GizmoTrisAlways => PipelineState {
            shader: ShaderId::CollabPeerLines,
            vertices: VertexInput::Lines,
            group0: LayoutId::Scene0,
            group1: None,
            target0: Some(ColorTarget { format: TexelFormat::Rgba16Float, blend: Blend::Preview, write: true }),
            target1: Some(ColorTarget { format: TexelFormat::Rgba16Float, blend: Blend::Replace, write: false }),
            depth: Some(depth(false, DepthCompare::Always, 0, 0)),
            cull_back: false,
            lines: false,
        },
        PipelineId::Avatar => PipelineState {
            shader: ShaderId::Avatar,
            vertices: VertexInput::Opaque,
            group0: LayoutId::Avatar,
            group1: None,
            target0: Some(ColorTarget { format: TexelFormat::Rgba16Float, blend: Blend::Replace, write: true }),
            target1: Some(ColorTarget { format: TexelFormat::Rgba16Float, blend: Blend::Replace, write: true }),
            depth: Some(depth(true, DepthCompare::LessEqual, 0, 0)),
            cull_back: true,
            lines: false,
        },
        PipelineId::Sky => PipelineState {
            shader: ShaderId::Sky,
            vertices: VertexInput::Fullscreen,
            group0: LayoutId::Scene0,
            group1: None,
            target0: Some(ColorTarget { format: TexelFormat::Rgba16Float, blend: Blend::Replace, write: true }),
            target1: Some(ColorTarget { format: TexelFormat::Rgba16Float, blend: Blend::Replace, write: true }),
            depth: Some(depth(false, DepthCompare::Always, 0, 0)),
            cull_back: false,
            lines: false,
        },
        PipelineId::StartScreenBg => PipelineState {
            shader: ShaderId::StartScreenBg,
            vertices: VertexInput::Fullscreen,
            group0: LayoutId::Scene0,
            group1: None,
            target0: Some(ColorTarget { format: TexelFormat::Rgba16Float, blend: Blend::Replace, write: true }),
            target1: Some(ColorTarget { format: TexelFormat::Rgba16Float, blend: Blend::Replace, write: true }),
            depth: Some(depth(false, DepthCompare::Always, 0, 0)),
            cull_back: false,
            lines: false,
        },
        PipelineId::OitAccum => PipelineState {
            shader: ShaderId::Scene,
            vertices: VertexInput::Opaque,
            group0: LayoutId::Scene0,
            group1: Some(LayoutId::Scene1),
            target0: Some(ColorTarget { format: TexelFormat::Rgba16Float, blend: Blend::Additive, write: true }),
            target1: Some(ColorTarget { format: TexelFormat::R16Float, blend: Blend::Revealage, write: true }),
            depth: Some(depth(false, DepthCompare::LessEqual, -2, -2)),
            cull_back: false,
            lines: false,
        },
        PipelineId::OitComposite => PipelineState {
            shader: ShaderId::OitComposite,
            vertices: VertexInput::Fullscreen,
            group0: LayoutId::OitComposite,
            group1: None,
            target0: Some(ColorTarget { format: TexelFormat::Rgba16Float, blend: Blend::Replace, write: true }),
            target1: None,
            depth: None,
            cull_back: false,
            lines: false,
        },
        PipelineId::Shadow => PipelineState {
            shader: ShaderId::Shadow,
            vertices: VertexInput::Opaque,
            group0: LayoutId::ShadowVs,
            group1: None,
            target0: None,
            target1: None,
            depth: Some(depth(true, DepthCompare::Less, 2, 4)),
            cull_back: true,
            lines: false,
        },
        PipelineId::BloomExtract => PipelineState {
            shader: ShaderId::BloomExtract,
            vertices: VertexInput::Fullscreen,
            group0: LayoutId::PostBlur,
            group1: None,
            target0: Some(ColorTarget { format: TexelFormat::Rgba16Float, blend: Blend::Replace, write: true }),
            target1: None,
            depth: None,
            cull_back: false,
            lines: false,
        },
        PipelineId::Blur => PipelineState {
            shader: ShaderId::Blur,
            vertices: VertexInput::Fullscreen,
            group0: LayoutId::PostBlur,
            group1: None,
            target0: Some(ColorTarget { format: TexelFormat::Rgba16Float, blend: Blend::Replace, write: true }),
            target1: None,
            depth: None,
            cull_back: false,
            lines: false,
        },
        PipelineId::Blit => PipelineState {
            shader: ShaderId::Blit,
            vertices: VertexInput::Fullscreen,
            group0: LayoutId::PostBloom,
            group1: None,
            target0: Some(ColorTarget { format: TexelFormat::Rgba16Float, blend: Blend::Replace, write: true }),
            target1: None,
            depth: None,
            cull_back: false,
            lines: false,
        },
        PipelineId::BlitWeightedAdd => PipelineState {
            shader: ShaderId::Blit,
            vertices: VertexInput::Fullscreen,
            group0: LayoutId::PostBlur,
            group1: None,
            target0: Some(ColorTarget { format: TexelFormat::Rgba16Float, blend: Blend::Additive, write: true }),
            target1: None,
            depth: None,
            cull_back: false,
            lines: false,
        },
        PipelineId::Composite => PipelineState {
            shader: ShaderId::Composite,
            vertices: VertexInput::Fullscreen,
            group0: LayoutId::PostComposite,
            group1: None,
            target0: Some(ColorTarget { format: TexelFormat::Surface(surface), blend: Blend::Replace, write: true }),
            target1: None,
            depth: None,
            cull_back: false,
            lines: false,
        },
        PipelineId::Meter => PipelineState {
            shader: ShaderId::Meter,
            vertices: VertexInput::Fullscreen,
            group0: LayoutId::PostBloom,
            group1: None,
            target0: Some(ColorTarget { format: TexelFormat::R32Float, blend: Blend::Replace, write: true }),
            target1: None,
            depth: None,
            cull_back: false,
            lines: false,
        },
        PipelineId::SsrFullscreen => PipelineState {
            shader: ShaderId::Ssr,
            vertices: VertexInput::Fullscreen,
            group0: LayoutId::Ssr,
            group1: None,
            target0: Some(ColorTarget { format: TexelFormat::Rgba16Float, blend: Blend::Replace, write: true }),
            target1: None,
            depth: None,
            cull_back: false,
            lines: false,
        },
        PipelineId::Raytrace => PipelineState {
            shader: ShaderId::RayTrace,
            vertices: VertexInput::Fullscreen,
            group0: LayoutId::RtScene,
            group1: Some(LayoutId::RtAccum),
            target0: Some(ColorTarget { format: TexelFormat::Rgba16Float, blend: Blend::Replace, write: true }),
            target1: None,
            depth: None,
            cull_back: false,
            lines: false,
        },
        PipelineId::Mascot => PipelineState {
            shader: ShaderId::Mascot,
            vertices: VertexInput::Mascot,
            group0: LayoutId::Mascot,
            group1: None,
            target0: Some(ColorTarget { format: TexelFormat::Surface(sdr), blend: Blend::Replace, write: true }),
            target1: None,
            depth: Some(depth(true, DepthCompare::Less, 0, 0)),
            cull_back: true,
            lines: false,
        },
        PipelineId::SpeechBubble => PipelineState {
            shader: ShaderId::SpeechBubble,
            vertices: VertexInput::Fullscreen,
            group0: LayoutId::SpeechBubble,
            group1: None,
            target0: Some(ColorTarget { format: TexelFormat::Surface(sdr), blend: Blend::Alpha, write: true }),
            target1: None,
            depth: None,
            cull_back: false,
            lines: false,
        },
    }
}

/// Name of the vertex stage of a pipeline.
pub fn vertex_entry(p: PipelineId) -> (r: &'static str)
    ensures
        r@ == vertex_entry_of(p),
{
    match p {
        PipelineId::Opaque => "vs_main",
        PipelineId::PreviewOccluded => "vs_main",
        PipelineId::PreviewFront => "vs_main",
        PipelineId::PreviewFrontWire => "vs_main",
        PipelineId::PreviewInstOccluded => "vs_preview_instanced",
        PipelineId::PreviewInstFront => "vs_preview_instanced",
        PipelineId::PreviewInstFrontWire => "vs_preview_instanced",
        PipelineId::GenPreviewInstOccluded => "vs_preview_instanced",
        PipelineId::GenPreviewInstFront => "vs_preview_instanced",
        PipelineId::GenPreviewInstFrontWire => "vs_preview_instanced",
        PipelineId::CollabLinesOccluded => "vs_main",
        PipelineId::CollabLinesFront => "vs_main",
        PipelineId::GridBorderLines => "vs_main",
        PipelineId::GizmoLinesFront => "vs_main",
        PipelineId::GizmoLinesOccluded => "vs_main",
        PipelineId::GizmoTrisFront => "vs_main",
        PipelineId::GizmoTrisOccluded => "vs_main",
        PipelineId::GizmoLinesAlways => "vs_main",
        PipelineId::GizmoTrisAlways => "vs_main",
        PipelineId::Avatar => "vs_avatar",
        PipelineId::Sky => "vs_fullscreen",
        PipelineId::StartScreenBg => "vs_fullscreen",
        PipelineId::OitAccum => "vs_main",
        PipelineId::OitComposite => "vs_fullscreen",
        PipelineId::Shadow => "vs_shadow",
        PipelineId::BloomExtract => "vs_fullscreen",
        PipelineId::Blur => "vs_fullscreen",
        PipelineId::Blit => "vs_fullscreen",
        PipelineId::BlitWeightedAdd => "vs_fullscreen",
        PipelineId::Composite => "vs_fullscreen",
        PipelineId::Meter => "vs_fullscreen",
        PipelineId::SsrFullscreen => "vs_fullscreen",
        PipelineId::Raytrace => "vs_fullscreen",
        PipelineId::Mascot => "vs_mascot",
        PipelineId::SpeechBubble => "vs_bubble",
    }
}

/// Name of the fragment stage of a pipeline that has one.
pub fn fragment_entry(p: PipelineId) -> (r: Option<&'static str>)
    ensures
        r is Some <==> fragment_entry_of(p) is Some,
        r is Some ==> r->0@ == fragment_entry_of(p)->0,
{
    match p {
        PipelineId::Opaque => Some("fs_opaque_mrt"),
        PipelineId::PreviewOccluded => Some("fs_preview_occluded_mrt"),
        PipelineId::PreviewFront => Some("fs_preview_front_mrt"),
        PipelineId::PreviewFrontWire => Some("fs_preview_front_mrt"),
        PipelineId::PreviewInstOccluded => Some("fs_preview_occluded_mrt"),
        PipelineId::PreviewInstFront => Some("fs_preview_front_mrt"),
        PipelineId::PreviewInstFrontWire => Some("fs_preview_front_mrt"),
        PipelineId::GenPreviewInstOccluded => Some("fs_preview_lit_occluded_mrt"),
        PipelineId::GenPreviewInstFront => Some("fs_preview_lit_mrt"),
        PipelineId::GenPreviewInstFrontWire => Some("fs_preview_lit_mrt"),
        PipelineId::CollabLinesOccluded => Some("fs_collab_line_occluded"),
        PipelineId::CollabLinesFront => Some("fs_collab_line_front"),
        PipelineId::GridBorderLines => Some("fs_grid_border_line"),
        PipelineId::GizmoLinesFront => Some("fs_gizmo_front"),
        PipelineId::GizmoLinesOccluded => Some("fs_gizmo_occluded"),
        PipelineId::GizmoTrisFront => Some("fs_gizmo_front"),
        PipelineId::GizmoTrisOccluded => Some("fs_gizmo_occluded"),
        PipelineId::GizmoLinesAlways => Some("fs_gizmo_front"),
        PipelineId::GizmoTrisAlways => Some("fs_gizmo_front"),
        PipelineId::Avatar => Some("fs_avatar"),
        PipelineId::Sky => Some("fs_sky_mrt"),
        PipelineId::StartScreenBg => Some("fs_start_screen_mrt"),
        PipelineId::OitAccum => Some("fs_oit_accum"),
        PipelineId::OitComposite => Some("fs_oit_composite"),
        PipelineId::Shadow => None,
        PipelineId::BloomExtract => Some("fs_bloom_extract"),
        PipelineId::Blur => Some("fs_blur"),
        PipelineId::Blit => Some("fs_blit"),
        PipelineId::BlitWeightedAdd => Some("fs_blit_weighted"),
        PipelineId::Composite => Some("fs_composite"),
        PipelineId::Meter => Some("fs_meter"),
        PipelineId::SsrFullscreen => Some("fs_ssr"),
        PipelineId::Raytrace => Some("fs_trace"),
        PipelineId::Mascot => Some("fs_mascot"),
        PipelineId::SpeechBubble => Some("fs_bubble"),
    }
}

/// Pipelines that draw editing aids over the scene.
pub open spec fn is_overlay(p: PipelineId) -> bool {
    match p {
        PipelineId::PreviewOccluded => true,
        PipelineId::PreviewFront => true,
        PipelineId::PreviewFrontWire => true,
        PipelineId::PreviewInstOccluded => true,
        PipelineId::PreviewInstFront => true,
        PipelineId::PreviewInstFrontWire => true,
        PipelineId::GenPreviewInstOccluded => true,
        PipelineId::GenPreviewInstFront => true,
        PipelineId::GenPreviewInstFrontWire => true,
        PipelineId::CollabLinesOccluded => true,
        PipelineId::CollabLinesFront => true,
        PipelineId::GridBorderLines => true,
        PipelineId::GizmoLinesFront => true,
        PipelineId::GizmoLinesOccluded => true,
        PipelineId::GizmoTrisFront => true,
        PipelineId::GizmoTrisOccluded => true,
        PipelineId::GizmoLinesAlways => true,
        PipelineId::GizmoTrisAlways => true,
        _ => false,
    }
}

/// Editing aids blend into the picture and leave the normals of the scene alone.
pub proof fn law_overlays_keep_the_normals(p: PipelineId, surface: u32, sdr: u32)
    requires
        is_overlay(p),
    ensures
        state_of(p, surface, sdr).target0 == Some(
            ColorTarget { format: TexelFormat::Rgba16Float, blend: Blend::Preview, write: true },
        ),
        state_of(p, surface, sdr).target1 == Some(
            ColorTarget { format: TexelFormat::Rgba16Float, blend: Blend::Replace, write: false },
        ),
{
}

/// The two halves of a ghost: the part behind the scene, and the part before it.
pub open spec fn ghost_pair(behind: PipelineId, before: PipelineId) -> bool {
    ||| behind == PipelineId::PreviewOccluded && before == PipelineId::PreviewFront
    ||| behind == PipelineId::PreviewInstOccluded && before == PipelineId::PreviewInstFront
    ||| behind == PipelineId::GenPreviewInstOccluded && before == PipelineId::GenPreviewInstFront
    ||| behind == PipelineId::CollabLinesOccluded && before == PipelineId::CollabLinesFront
    ||| behind == PipelineId::GizmoLinesOccluded && before == PipelineId::GizmoLinesFront
    ||| behind == PipelineId::GizmoTrisOccluded && before == PipelineId::GizmoTrisFront
}

/// The halves of a ghost share geometry and targets and test for opposite
/// depths, each with a bias in its favour.
pub proof fn law_ghost_halves(behind: PipelineId, before: PipelineId, surface: u32, sdr: u32)
    requires
        ghost_pair(behind, before),
    ensures
        ({
            let a = state_of(behind, surface, sdr);
            let b = state_of(before, surface, sdr);
            &&& a.shader == b.shader && a.vertices == b.vertices && a.group0 == b.group0
            &&& a.target0 == b.target0 && a.target1 == b.target1
            &&& a.depth->0.compare == DepthCompare::Greater && a.depth->0.bias > 0
            &&& b.depth->0.compare == DepthCompare::LessEqual && b.depth->0.bias < 0
        }),
{
}

} // verus!
