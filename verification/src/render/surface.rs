//! The window surface: which of its formats is used, where the viewport lies in
//! it, and the switches for tone mapping and exposure.

use vstd::prelude::*;

use crate::render::textures::{at_least_one, TargetShape};

verus! {

/// Extent of the surface before the window says otherwise.
pub const START_WIDTH: u32 = 800;

pub const START_HEIGHT: u32 = 600;

/// Largest tone mapping mode.
pub const LAST_TONE_MODE: u32 = 6;

/// A format that the surface offers.
#[derive(Clone, Copy, Debug, PartialEq, Eq, Structural)]
pub struct OfferedFormat {
    pub srgb: bool,
    /// Half floats in four channels, the format of high dynamic range output.
    pub rgba16_float: bool,
}

/// How the surface is blended with what lies under the window.
#[derive(Clone, Copy, Debug, PartialEq, Eq, Structural)]
pub enum AlphaMode {
    Auto,
    Opaque,
    PreMultiplied,
    PostMultiplied,
    Inherit,
}

/// State of the surface. Formats are numbers handed out by the window system.
#[derive(Clone, Copy, Debug, PartialEq, Eq, Structural)]
pub struct SurfaceState {
    pub surface_width: u32,
    pub surface_height: u32,
    pub viewport_x: u32,
    pub viewport_y: u32,
    pub viewport_width: u32,
    pub viewport_height: u32,
    /// Extent of the depth buffer of mascots and logo.
    pub mascot_depth_width: u32,
    pub mascot_depth_height: u32,
    pub sdr_format: u32,
    pub hdr_surface_format: Option<u32>,
    pub hdr_output: bool,
    /// The format in use.
    pub format: u32,
    pub tone_mode: u32,
    pub start_screen_transparent: bool,
    pub auto_exposure_enabled: bool,
    /// A luminance readback is under way.
    pub meter_pending: bool,
}

/// What became of a luminance readback.
#[derive(Clone, Copy, Debug, PartialEq, Eq, Structural)]
pub enum MeterEvent {
    Ready,
    Failed,
    NotYet,
    Lost,
}

/// What to do about a luminance readback.
#[derive(Clone, Copy, Debug, PartialEq, Eq, Structural)]
pub enum MeterAction {
    Nothing,
    /// Read the value, release the buffer and adapt the exposure.
    Adapt,
    /// Release the buffer.
    Release,
}

/// The viewport has texels and lies within the surface.
pub open spec fn viewport_within(s: SurfaceState) -> bool {
    &&& s.viewport_width >= 1 && s.viewport_height >= 1
    &&& s.viewport_x + s.viewport_width <= s.surface_width
    &&& s.viewport_y + s.viewport_height <= s.surface_height
}

/// The format in use is the one that the output asks for.
pub open spec fn format_agrees(s: SurfaceState) -> bool {
    if s.hdr_output {
        s.hdr_surface_format == Some(s.format)
    } else {
        s.format == s.sdr_format
    }
}

/// The smaller of two numbers.
pub open spec fn least(a: int, b: int) -> int {
    if a < b {
        a
    } else {
        b
    }
}

/// Start of the viewport along one axis: inside the surface.
pub open spec fn kept_start(start: int, surface: int) -> int {
    least(start, surface - 1)
}

/// Extent of the viewport along one axis: at least one, and not beyond the surface.
pub open spec fn kept_extent(start: int, extent: int, surface: int) -> int {
    least(at_least_one(extent), surface - kept_start(start, surface))
}

/// Position of the standard range format among those offered: the first with an
/// sRGB transfer curve, or the first of all.
pub fn choose_surface_format(offered: &[OfferedFormat]) -> (r: usize)
    requires
        offered@.len() > 0,
    ensures
        r < offered@.len(),
        if exists|i: int| 0 <= i < offered@.len() && (#[trigger] offered@[i]).srgb {
            offered@[r as int].srgb && forall|i: int|
                0 <= i < r ==> !(#[trigger] offered@[i]).srgb
        } else {
            r == 0
        },
{
    let n: usize = offered.len();
    let mut i: usize = 0;
    while i < n
        invariant
            i <= n,
            n == offered@.len(),
            forall|k: int| 0 <= k < i ==> !(#[trigger] offered@[k]).srgb,
        decreases n - i,
    {
        if offered[i].srgb {
            assert(offered@[i as int].srgb);
            return i;
        }
        i += 1;
    }
    0
}

/// Position of the first high dynamic range format among those offered.
pub fn choose_hdr_format(offered: &[OfferedFormat]) -> (r: Option<usize>)
    ensures
        match r {
            Some(i) => i < offered@.len() && offered@[i as int].rgba16_float && forall|k: int|
                0 <= k < i ==> !(#[trigger] offered@[k]).rgba16_float,
            None => forall|k: int|
                0 <= k < offered@.len() ==> !(#[trigger] offered@[k]).rgba16_float,
        },
{
    let n: usize = offered.len();
    let mut i: usize = 0;
    while i < n
        invariant
            i <= n,
            n == offered@.len(),
            forall|k: int| 0 <= k < i ==> !(#[trigger] offered@[k]).rgba16_float,
        decreases n - i,
    {
        if offered[i].rgba16_float {
            return Some(i);
        }
        i += 1;
    }
    None
}

fn offers(modes: &[AlphaMode], m: AlphaMode) -> (r: bool)
    ensures
        r == modes@.contains(m),
{
    let n: usize = modes.len();
    let mut i: usize = 0;
    while i < n
        invariant
            i <= n,
            n == modes@.len(),
            forall|k: int| 0 <= k < i ==> #[trigger] modes@[k] != m,
        decreases n - i,
    {
        if modes[i] == m {
            assert(modes@[i as int] == m);
            return true;
        }
        i += 1;
    }
    false
}

/// How the surface is blended: opaque on Windows where it can be, otherwise the
/// first of the blending modes that is offered, otherwise whatever comes first.
pub fn choose_alpha_mode(modes: &[AlphaMode], windows: bool) -> (r: AlphaMode)
    requires
        modes@.len() > 0,
    ensures
        r == (if windows && modes@.contains(AlphaMode::Opaque) {
            AlphaMode::Opaque
        } else if modes@.contains(AlphaMode::PreMultiplied) {
            AlphaMode::PreMultiplied
        } else if modes@.contains(AlphaMode::PostMultiplied) {
            AlphaMode::PostMultiplied
        } else if modes@.contains(AlphaMode::Inherit) {
            AlphaMode::Inherit
        } else {
            modes@[0]
        }),
        modes@.contains(r),
{
    if windows && offers(modes, AlphaMode::Opaque) {
        AlphaMode::Opaque
    } else if offers(modes, AlphaMode::PreMultiplied) {
        AlphaMode::PreMultiplied
    } else if offers(modes, AlphaMode::PostMultiplied) {
        AlphaMode::PostMultiplied
    } else if offers(modes, AlphaMode::Inherit) {
        AlphaMode::Inherit
    } else {
        assert(modes@.contains(modes@[0]));
        modes[0]
    }
}

fn positive(n: u32) -> (r: u32)
    ensures
        r == at_least_one(n as int),
{
    if n < 1 {
        1
    } else {
        n
    }
}

fn clip_axis(start: u32, extent: u32, surface: u32) -> (r: (u32, u32))
    requires
        surface > 0,
    ensures
        r.0 == kept_start(start as int, surface as int),
        r.1 == kept_extent(start as int, extent as int, surface as int),
{
    let kept: u32 = if start < surface - 1 {
        start
    } else {
        surface - 1
    };
    let wanted: u32 = positive(extent);
    let room: u32 = surface - kept;
    (
        kept,
        if wanted < room {
            wanted
        } else {
            room
        },
    )
}

/// The window at the start.
pub open spec fn surface_at_start(
    sdr_format: u32,
    hdr_surface_format: Option<u32>,
    auto_exposure: bool,
) -> SurfaceState {
    SurfaceState {
        surface_width: START_WIDTH,
        surface_height: START_HEIGHT,
        viewport_x: 0,
        viewport_y: 0,
        viewport_width: START_WIDTH,
        viewport_height: START_HEIGHT,
        mascot_depth_width: START_WIDTH,
        mascot_depth_height: START_HEIGHT,
        sdr_format,
        hdr_surface_format,
        hdr_output: false,
        format: sdr_format,
        tone_mode: 0,
        start_screen_transparent: true,
        auto_exposure_enabled: auto_exposure,
        meter_pending: false,
    }
}

impl SurfaceState {
    /// The surface at the start: the viewport fills it, the start screen is
    /// shown, output is of standard range.
    pub fn new(sdr_format: u32, hdr_surface_format: Option<u32>, auto_exposure: bool) -> (r:
        SurfaceState)
        ensures
            r == surface_at_start(sdr_format, hdr_surface_format, auto_exposure),
            viewport_within(r),
            format_agrees(r),
    {
        SurfaceState {
            surface_width: START_WIDTH,
            surface_height: START_HEIGHT,
            viewport_x: 0,
            viewport_y: 0,
            viewport_width: START_WIDTH,
            viewport_height: START_HEIGHT,
            mascot_depth_width: START_WIDTH,
            mascot_depth_height: START_HEIGHT,
            sdr_format,
            hdr_surface_format,
            hdr_output: false,
            format: sdr_format,
            tone_mode: 0,
            start_screen_transparent: true,
            auto_exposure_enabled: auto_exposure,
            meter_pending: false,
        }
    }

    /// The window has a new extent, with the viewport at a place in it. A
    /// surface without texels is ignored; the result says whether the targets
    /// are to be made anew.
    pub fn resize(
        &mut self,
        surface_w: u32,
        surface_h: u32,
        viewport_x: u32,
        viewport_y: u32,
        viewport_width: u32,
        viewport_height: u32,
    ) -> (changed: bool)
        ensures
            changed == (surface_w > 0 && surface_h > 0),
            !changed ==> *final(self) == *old(self),
            changed ==> {
                &&& viewport_within(*final(self))
                &&& final(self).viewport_x == kept_start(viewport_x as int, surface_w as int)
                &&& final(self).viewport_y == kept_start(viewport_y as int, surface_h as int)
                &&& final(self).viewport_width == kept_extent(
                    viewport_x as int,
                    viewport_width as int,
                    surface_w as int,
                )
                &&& final(self).viewport_height == kept_extent(
                    viewport_y as int,
                    viewport_height as int,
                    surface_h as int,
                )
                &&& *final(self) == (SurfaceState {
                    surface_width: surface_w,
                    surface_height: surface_h,
                    viewport_x: final(self).viewport_x,
                    viewport_y: final(self).viewport_y,
                    viewport_width: final(self).viewport_width,
                    viewport_height: final(self).viewport_height,
                    mascot_depth_width: surface_w,
                    mascot_depth_height: surface_h,
                    ..*old(self)
                })
            },
    {
        if surface_w == 0 || surface_h == 0 {
            return false;
        }
        let (x, w): (u32, u32) = clip_axis(viewport_x, viewport_width, surface_w);
        let (y, h): (u32, u32) = clip_axis(viewport_y, viewport_height, surface_h);
        self.surface_width = surface_w;
        self.surface_height = surface_h;
        self.viewport_x = x;
        self.viewport_y = y;
        self.viewport_width = w;
        self.viewport_height = h;
        self.mascot_depth_width = surface_w;
        self.mascot_depth_height = surface_h;
        true
    }

    /// Extent of the viewport, at least one texel.
    pub fn viewport_size(&self) -> (r: (u32, u32))
        ensures
            r.0 == at_least_one(self.viewport_width as int),
            r.1 == at_least_one(self.viewport_height as int),
    {
        (positive(self.viewport_width), positive(self.viewport_height))
    }

    /// Extent of the surface, at least one texel.
    pub fn surface_pixel_size(&self) -> (r: (u32, u32))
        ensures
            r.0 == at_least_one(self.surface_width as int),
            r.1 == at_least_one(self.surface_height as int),
    {
        (positive(self.surface_width), positive(self.surface_height))
    }

    /// Sizes that the textures are made for.
    pub fn target_shape(&self) -> (r: TargetShape)
        ensures
            r == shape_of(*self),
    {
        TargetShape {
            surface_width: self.surface_width,
            surface_height: self.surface_height,
            viewport_width: self.viewport_width,
            viewport_height: self.viewport_height,
            surface_format: self.format,
        }
    }

    /// A frame begins on a swapchain texture of the given extent. The result
    /// says whether the depth buffer of mascots and logo is to be made anew: it
    /// has to have the extent of what it is attached beside.
    pub fn begin_frame(&mut self, width: u32, height: u32) -> (made: bool)
        ensures
            final(self).surface_width == at_least_one(width as int),
            final(self).surface_height == at_least_one(height as int),
            final(self).mascot_depth_width == final(self).surface_width,
            final(self).mascot_depth_height == final(self).surface_height,
            made == (old(self).mascot_depth_width != final(self).surface_width || old(
                self,
            ).mascot_depth_height != final(self).surface_height),
            *final(self) == (SurfaceState {
                surface_width: final(self).surface_width,
                surface_height: final(self).surface_height,
                mascot_depth_width: final(self).mascot_depth_width,
                mascot_depth_height: final(self).mascot_depth_height,
                ..*old(self)
            }),
    {
        self.surface_width = positive(width);
        self.surface_height = positive(height);
        let made = self.mascot_depth_width != self.surface_width || self.mascot_depth_height
            != self.surface_height;
        self.mascot_depth_width = self.surface_width;
        self.mascot_depth_height = self.surface_height;
        made
    }

    /// Whether the display takes high dynamic range output.
    pub fn hdr_available(&self) -> (r: bool)
        ensures
            r == (self.hdr_surface_format is Some),
    {
        self.hdr_surface_format.is_some()
    }

    /// Turns high dynamic range output on or off, where the display takes it.
    /// The result says whether what is made for the format is to be made anew.
    pub fn set_hdr_output(&mut self, enabled: bool) -> (changed: bool)
        requires
            format_agrees(*old(self)),
        ensures
            format_agrees(*final(self)),
            changed == (enabled != old(self).hdr_output && (enabled ==> old(
                self,
            ).hdr_surface_format is Some)),
            *final(self) == (if !changed {
                *old(self)
            } else {
                SurfaceState {
                    hdr_output: enabled,
                    format: if enabled {
                        old(self).hdr_surface_format->0
                    } else {
                        old(self).sdr_format
                    },
                    ..*old(self)
                }
            }),
    {
        if enabled == self.hdr_output {
            return false;
        }
        if enabled {
            match self.hdr_surface_format {
                Some(f) => {
                    self.hdr_output = true;
                    self.format = f;
                    true
                },
                None => false,
            }
        } else {
            self.hdr_output = false;
            self.format = self.sdr_format;
            true
        }
    }

    /// Whether mascots, logo and speech bubbles can be drawn: their pipelines
    /// are made for the standard range format.
    pub fn takes_sdr_overlays(&self) -> (r: bool)
        ensures
            r == (self.format == self.sdr_format),
    {
        self.format == self.sdr_format
    }

    /// Chooses the tone mapping.
    pub fn set_tone_mapping_mode(&mut self, mode: u32)
        ensures
            *final(self) == (SurfaceState {
                tone_mode: least(mode as int, LAST_TONE_MODE as int) as u32,
                ..*old(self)
            }),
    {
        self.tone_mode = if mode < LAST_TONE_MODE {
            mode
        } else {
            LAST_TONE_MODE
        };
    }

    /// Shows or hides the start screen.
    pub fn set_start_screen_transparent(&mut self, v: bool)
        ensures
            *final(self) == (SurfaceState { start_screen_transparent: v, ..*old(self) }),
    {
        self.start_screen_transparent = v;
    }

    /// Turns automatic exposure on or off; the result says whether what it has
    /// adapted to is forgotten: whenever it is turned on.
    pub fn set_auto_exposure(&mut self, enabled: bool) -> (forget: bool)
        ensures
            *final(self) == (SurfaceState { auto_exposure_enabled: enabled, ..*old(self) }),
            forget == (enabled && !old(self).auto_exposure_enabled),
    {
        let forget = enabled && !self.auto_exposure_enabled;
        self.auto_exposure_enabled = enabled;
        forget
    }

    /// Asks for a luminance readback; the result says whether it is to be
    /// started: not while another is under way.
    pub fn begin_meter_readback(&mut self) -> (start: bool)
        ensures
            *final(self) == (SurfaceState { meter_pending: true, ..*old(self) }),
            start == !old(self).meter_pending,
    {
        let start = !self.meter_pending;
        self.meter_pending = true;
        start
    }

    /// Looks after a luminance readback without waiting for it. One that is not
    /// done stays under way, any other is over.
    pub fn try_collect_meter_luminance(&mut self, event: MeterEvent) -> (action: MeterAction)
        ensures
            *final(self) == (SurfaceState {
                meter_pending: old(self).meter_pending && event == MeterEvent::NotYet,
                ..*old(self)
            }),
            action == (if !old(self).meter_pending {
                MeterAction::Nothing
            } else {
                match event {
                    MeterEvent::Ready => MeterAction::Adapt,
                    MeterEvent::Failed => MeterAction::Release,
                    MeterEvent::NotYet => MeterAction::Nothing,
                    MeterEvent::Lost => MeterAction::Nothing,
                }
            }),
    {
        if !self.meter_pending {
            return MeterAction::Nothing;
        }
        match event {
            MeterEvent::Ready => {
                self.meter_pending = false;
                MeterAction::Adapt
            },
            MeterEvent::Failed => {
                self.meter_pending = false;
                MeterAction::Release
            },
            MeterEvent::NotYet => MeterAction::Nothing,
            MeterEvent::Lost => {
                self.meter_pending = false;
                MeterAction::Nothing
            },
        }
    }
}

/// Sizes that the textures are made for.
pub open spec fn shape_of(s: SurfaceState) -> TargetShape {
    TargetShape {
        surface_width: s.surface_width,
        surface_height: s.surface_height,
        viewport_width: s.viewport_width,
        viewport_height: s.viewport_height,
        surface_format: s.format,
    }
}

/// A viewport that lies within the surface is taken as it is.
pub proof fn law_good_viewport_is_kept(start: int, extent: int, surface: int)
    requires
        start >= 0,
        extent >= 1,
        start + extent <= surface,
    ensures
        kept_start(start, surface) == start,
        kept_extent(start, extent, surface) == extent,
{
}

} // verus!
