//! The textures a frame is drawn through: size, format and permitted uses of each.

use vstd::prelude::*;

verus! {

/// Number of levels in the bloom pyramid.
pub const BLOOM_LEVELS: u32 = 5;

/// Side of the square shadow map, in texels.
pub const SHADOW_MAP_SIZE: u32 = 8192;

/// A texture of the renderer.
#[derive(Clone, Copy, Debug, PartialEq, Eq, Structural)]
pub enum TextureId {
    Shadow,
    /// Opaque and glowing surfaces only; sampled while transparent ones are drawn.
    HdrOpaque,
    /// The finished scene before tone mapping.
    Hdr,
    Normal,
    Depth,
    /// Copy of the opaque depth that may be sampled while `Depth` is attached.
    DepthSnapshot,
    OitAccum,
    OitRevealage,
    BloomA,
    BloomB,
    /// Level of the bloom pyramid, `0` at half resolution.
    PyramidA(u32),
    /// Second texture of a level, the target of its horizontal blur.
    PyramidB(u32),
    /// Tone mapped picture of the viewport.
    Present,
    /// One of the two sides of the ray tracer's accumulator.
    RtAccum(bool),
    /// Half resolution target of the ray tracer while the camera moves.
    RtPreview,
    Ssr,
    Meter,
    MascotDepth,
    Swapchain,
}

/// Texel format. Formats offered by the surface are known by a number.
#[derive(Clone, Copy, Debug, PartialEq, Eq, Structural)]
pub enum TexelFormat {
    Rgba16Float,
    R16Float,
    R32Float,
    Depth32Float,
    Surface(u32),
}

/// What a texture may be used for.
#[derive(Clone, Copy, Debug, PartialEq, Eq, Structural)]
pub struct TextureUse {
    pub attach: bool,
    pub sample: bool,
    pub copy_from: bool,
    pub copy_to: bool,
}

/// Sizes and surface format the textures are made for.
#[derive(Clone, Copy, Debug, PartialEq, Eq, Structural)]
pub struct TargetShape {
    pub surface_width: u32,
    pub surface_height: u32,
    pub viewport_width: u32,
    pub viewport_height: u32,
    pub surface_format: u32,
}

/// How a texture is made.
#[derive(Clone, Copy, Debug, PartialEq, Eq, Structural)]
pub struct TextureSpec {
    pub width: u32,
    pub height: u32,
    pub format: TexelFormat,
    pub usage: TextureUse,
}

/// At least one.
pub open spec fn at_least_one(n: int) -> int {
    if n < 1 {
        1
    } else {
        n
    }
}

/// The level of a bloom pyramid texture exists.
pub open spec fn texture_exists(t: TextureId) -> bool {
    match t {
        TextureId::PyramidA(i) => i < BLOOM_LEVELS,
        TextureId::PyramidB(i) => i < BLOOM_LEVELS,
        _ => true,
    }
}

/// `2` to the power `n`.
pub open spec fn two_to(n: nat) -> int
    decreases n,
{
    if n == 0 {
        1
    } else {
        2 * two_to((n - 1) as nat)
    }
}

/// Extent of pyramid level `level` over a full extent: halved once more than the level says.
pub open spec fn level_extent(full: int, level: int) -> int {
    at_least_one(full / two_to((level + 1) as nat))
}

/// Size of a texture.
pub open spec fn texture_size(t: TextureId, s: TargetShape) -> (int, int) {
    match t {
        TextureId::Shadow => (SHADOW_MAP_SIZE as int, SHADOW_MAP_SIZE as int),
        TextureId::PyramidA(i) => (
            level_extent(s.viewport_width as int, i as int),
            level_extent(s.viewport_height as int, i as int),
        ),
        TextureId::PyramidB(i) => (
            level_extent(s.viewport_width as int, i as int),
            level_extent(s.viewport_height as int, i as int),
        ),
        TextureId::RtPreview => (
            at_least_one(s.viewport_width as int / 2),
            at_least_one(s.viewport_height as int / 2),
        ),
        TextureId::Meter => (1, 1),
        TextureId::MascotDepth => (
            at_least_one(s.surface_width as int),
            at_least_one(s.surface_height as int),
        ),
        TextureId::Swapchain => (
            at_least_one(s.surface_width as int),
            at_least_one(s.surface_height as int),
        ),
        _ => (at_least_one(s.viewport_width as int), at_least_one(s.viewport_height as int)),
    }
}

/// Format of a texture under the surface format in use.
pub open spec fn texture_format(t: TextureId, surface_format: u32) -> TexelFormat {
    match t {
        TextureId::Shadow | TextureId::Depth | TextureId::DepthSnapshot | TextureId::MascotDepth => {
            TexelFormat::Depth32Float
        },
        TextureId::OitRevealage => TexelFormat::R16Float,
        TextureId::Meter => TexelFormat::R32Float,
        TextureId::Present | TextureId::Swapchain => TexelFormat::Surface(surface_format),
        _ => TexelFormat::Rgba16Float,
    }
}

/// Permitted uses of a texture.
pub open spec fn texture_use(t: TextureId) -> TextureUse {
    TextureUse {
        attach: t != TextureId::DepthSnapshot,
        sample: t != TextureId::Present && t != TextureId::Meter && t != TextureId::MascotDepth && t
            != TextureId::Swapchain,
        copy_from: t == TextureId::HdrOpaque || t == TextureId::Depth || t == TextureId::Present
            || t == TextureId::Meter || t is RtAccum || t == TextureId::RtPreview,
        copy_to: t == TextureId::Hdr || t == TextureId::DepthSnapshot || t == TextureId::Swapchain,
    }
}

/// Halving once more gives half of what was there, rounded down.
proof fn lemma_level_halves(full: int, level: nat)
    requires
        full >= 0,
    ensures
        full / two_to(level + 1) == (full / two_to(level)) / 2,
        two_to(level) >= 1,
        full / two_to(level) >= 0,
    decreases level,
{
    assert(two_to(level + 1) == 2 * two_to(level));
    lemma_two_to_positive(level);
    let p = two_to(level);
    assert(full / (p * 2) == (full / p) / 2) by {
        vstd::arithmetic::div_mod::lemma_div_denominator(full, p, 2);
    }
    assert(full / p >= 0) by {
        vstd::arithmetic::div_mod::lemma_div_pos_is_pos(full, p);
    }
}

proof fn lemma_two_to_positive(n: nat)
    ensures
        two_to(n) >= 1,
    decreases n,
{
    if n > 0 {
        lemma_two_to_positive((n - 1) as nat);
    }
}

/// Every level of the bloom pyramid has texels, and is at most half as wide as
/// the one before it unless that one is a single texel already.
pub proof fn law_pyramid_shrinks(full: int, level: int)
    requires
        full >= 0,
        0 <= level,
    ensures
        level_extent(full, level) >= 1,
        level_extent(full, level + 1) == at_least_one(level_extent(full, level) / 2),
{
    lemma_level_halves(full, (level + 1) as nat);
    assert((level + 1) as nat + 1 == (level + 1 + 1) as nat);
}

/// Extent of pyramid level `level`.
fn halved(full: u32, level: u32) -> (r: u32)
    requires
        level < BLOOM_LEVELS,
    ensures
        r == level_extent(full as int, level as int),
{
    let mut n: u32 = full;
    let mut i: u32 = 0;
    proof {
        assert(two_to(0) == 1);
        assert(full as int / 1 == full);
    }
    while i <= level
        invariant
            i <= level + 1,
            level < BLOOM_LEVELS,
            n == full as int / two_to(i as nat),
        decreases level + 1 - i,
    {
        proof {
            lemma_level_halves(full as int, i as nat);
        }
        n = n / 2;
        i += 1;
    }
    if n < 1 {
        1
    } else {
        n
    }
}

fn positive(n: u32) -> (r: u32)
    ensures
        r == at_least_one(n as int),
{
    if n < 1 {
        1
    } else {
        n
    }
}

/// Size, format and uses of a texture.
pub fn texture_spec(t: TextureId, s: &TargetShape) -> (r: TextureSpec)
    requires
        texture_exists(t),
    ensures
        (r.width as int, r.height as int) == texture_size(t, *s),
        r.format == texture_format(t, s.surface_format),
        r.usage == texture_use(t),
{
    let (width, height): (u32, u32) = match t {
        TextureId::Shadow => (SHADOW_MAP_SIZE, SHADOW_MAP_SIZE),
        TextureId::PyramidA(i) => (halved(s.viewport_width, i), halved(s.viewport_height, i)),
        TextureId::PyramidB(i) => (halved(s.viewport_width, i), halved(s.viewport_height, i)),
        TextureId::RtPreview => (positive(s.viewport_width / 2), positive(s.viewport_height / 2)),
        TextureId::Meter => (1, 1),
        TextureId::MascotDepth => (positive(s.surface_width), positive(s.surface_height)),
        TextureId::Swapchain => (positive(s.surface_width), positive(s.surface_height)),
        _ => (positive(s.viewport_width), positive(s.viewport_height)),
    };
    let format = match t {
        TextureId::Shadow | TextureId::Depth | TextureId::DepthSnapshot | TextureId::MascotDepth => {
            TexelFormat::Depth32Float
        },
        TextureId::OitRevealage => TexelFormat::R16Float,
        TextureId::Meter => TexelFormat::R32Float,
        TextureId::Present | TextureId::Swapchain => TexelFormat::Surface(s.surface_format),
        _ => TexelFormat::Rgba16Float,
    };
    let plain = TextureUse { attach: true, sample: true, copy_from: false, copy_to: false };
    let usage = match t {
        TextureId::HdrOpaque | TextureId::Depth | TextureId::RtAccum(_) | TextureId::RtPreview => {
            TextureUse { copy_from: true, ..plain }
        },
        TextureId::Hdr => TextureUse { copy_to: true, ..plain },
        TextureId::DepthSnapshot => TextureUse { attach: false, copy_to: true, ..plain },
        TextureId::Present | TextureId::Meter => {
            TextureUse { sample: false, copy_from: true, ..plain }
        },
        TextureId::MascotDepth => TextureUse { sample: false, ..plain },
        TextureId::Swapchain => TextureUse { sample: false, copy_to: true, ..plain },
        _ => plain,
    };
    TextureSpec { width, height, format, usage }
}

} // verus!
