//! The progressive ray tracer: how many samples have been gathered, which side
//! of the accumulator is written, and what starts the gathering anew.

use vstd::prelude::*;

verus! {

/// State of the ray tracer.
#[derive(Clone, Copy, Debug, PartialEq, Eq, Structural)]
pub struct RaytraceState {
    pub enabled: bool,
    /// The side of the accumulator that the next frame writes.
    pub flip: bool,
    /// Samples gathered so far.
    pub sample_n: u32,
    /// The camera moves: trace at half resolution with cheap shading.
    pub fast_preview: bool,
    /// Style of the surface normals: 0 blocky, 1 smooth, 2 puffy.
    pub surface_mode: u32,
}

/// Parameters of one traced frame.
#[derive(Clone, Copy, Debug, PartialEq, Eq, Structural)]
pub struct RtUniform {
    pub frame_seed: u32,
    pub sample_n: u32,
    pub fast_preview: u32,
    pub surface_mode: u32,
}

/// Seed of the frame that adds sample `n`.
pub open spec fn frame_seed(n: int) -> int {
    (n * 2654435761 + 1) % 0x1_0000_0000
}

/// Different sample numbers have different seeds.
pub proof fn law_seeds_differ(a: u32, b: u32)
    requires
        frame_seed(a as int) == frame_seed(b as int),
    ensures
        a == b,
{
    let m: int = 0x1_0000_0000;
    let k: int = 2654435761;
    let inverse: int = 244002641;
    let d = a - b;
    assert((k * a + 1) % m == (k * b + 1) % m);
    assert((k * d) % m == 0) by {
        vstd::arithmetic::div_mod::lemma_mod_equivalence(k * a + 1, k * b + 1, m);
        assert((k * a + 1) - (k * b + 1) == k * d) by (nonlinear_arith)
            requires
                d == a - b,
        ;
    }
    let q = (k * d) / m;
    assert(k * d == m * q) by {
        vstd::arithmetic::div_mod::lemma_fundamental_div_mod(k * d, m);
    }
    assert(inverse * k == 150801925 * m + 1) by (nonlinear_arith)
        requires
            m == 0x1_0000_0000int,
            k == 2654435761int,
            inverse == 244002641int,
    ;
    assert(d == m * (inverse * q - 150801925 * d)) by (nonlinear_arith)
        requires
            k * d == m * q,
            inverse * k == 150801925 * m + 1,
    ;
    let w = inverse * q - 150801925 * d;
    assert(-m < d < m);
    assert(w == 0) by (nonlinear_arith)
        requires
            d == m * w,
            -m < d < m,
            m == 0x1_0000_0000int,
    ;
}

/// The ray tracer at the start: off.
pub open spec fn raytrace_at_start() -> RaytraceState {
    RaytraceState { enabled: false, flip: false, sample_n: 0, fast_preview: false, surface_mode: 0 }
}

impl RaytraceState {
    /// Off, with nothing gathered.
    pub fn new() -> (r: RaytraceState)
        ensures
            r == raytrace_at_start(),
    {
        RaytraceState {
            enabled: false,
            flip: false,
            sample_n: 0,
            fast_preview: false,
            surface_mode: 0,
        }
    }

    /// Parameters of the next frame.
    pub fn rt_uniform(&self) -> (r: RtUniform)
        ensures
            r.frame_seed == frame_seed(self.sample_n as int),
            r.sample_n == self.sample_n,
            r.fast_preview == (if self.fast_preview {
                1u32
            } else {
                0u32
            }),
            r.surface_mode == self.surface_mode,
    {
        let seed: u64 = (self.sample_n as u64 * 2654435761 + 1) % 0x1_0000_0000;
        RtUniform {
            frame_seed: seed as u32,
            sample_n: self.sample_n,
            fast_preview: if self.fast_preview {
                1
            } else {
                0
            },
            surface_mode: self.surface_mode,
        }
    }

    /// A frame was traced: the other side is written next, with one sample more.
    pub fn advance(&mut self)
        ensures
            *final(self) == advanced(*old(self)),
    {
        self.flip = !self.flip;
        if self.sample_n < u32::MAX {
            self.sample_n = self.sample_n + 1;
        }
    }

    /// Turns the ray tracer on or off and starts anew.
    pub fn set_raytrace_mode(&mut self, enabled: bool)
        ensures
            *final(self) == (RaytraceState { enabled, sample_n: 0, ..*old(self) }),
    {
        self.enabled = enabled;
        self.sample_n = 0;
    }

    /// Chooses the style of the surface normals; a change starts anew.
    pub fn set_rt_surface_mode(&mut self, mode: u32)
        ensures
            *final(self) == (if old(self).surface_mode == mode {
                *old(self)
            } else {
                RaytraceState { surface_mode: mode, sample_n: 0, ..*old(self) }
            }),
    {
        if self.surface_mode != mode {
            self.surface_mode = mode;
            self.sample_n = 0;
        }
    }

    /// Throws the gathered samples away.
    pub fn restart(&mut self)
        ensures
            *final(self) == (RaytraceState { sample_n: 0, ..*old(self) }),
    {
        self.sample_n = 0;
    }

    /// Says whether the camera moved since the last frame.
    pub fn note_camera(&mut self, moved: bool)
        ensures
            *final(self) == (if !old(self).enabled {
                *old(self)
            } else if moved {
                RaytraceState { sample_n: 0, fast_preview: true, ..*old(self) }
            } else {
                RaytraceState { fast_preview: false, ..*old(self) }
            }),
    {
        if self.enabled {
            if moved {
                self.sample_n = 0;
                self.fast_preview = true;
            } else {
                self.fast_preview = false;
            }
        }
    }

    /// The mood changed: starts anew, with a cheap frame first.
    pub fn note_mood(&mut self)
        ensures
            *final(self) == (if old(self).enabled {
                RaytraceState { sample_n: 0, fast_preview: true, ..*old(self) }
            } else {
                *old(self)
            }),
    {
        if self.enabled {
            self.sample_n = 0;
            self.fast_preview = true;
        }
    }

    /// Begins a benchmark; the result is the number of frames, at least one.
    pub fn begin_benchmark(&mut self, frame_count: u32) -> (n: u32)
        ensures
            *final(self) == (RaytraceState { sample_n: 0, fast_preview: false, ..*old(self) }),
            n == (if frame_count < 1 {
                1
            } else {
                frame_count
            }),
    {
        self.sample_n = 0;
        self.fast_preview = false;
        if frame_count < 1 {
            1
        } else {
            frame_count
        }
    }

    /// Ends a benchmark, so that normal frames start anew.
    pub fn end_benchmark(&mut self)
        ensures
            *final(self) == (RaytraceState { sample_n: 0, flip: false, ..*old(self) }),
    {
        self.sample_n = 0;
        self.flip = false;
    }
}

/// The state after one more traced frame.
pub open spec fn advanced(s: RaytraceState) -> RaytraceState {
    RaytraceState {
        flip: !s.flip,
        sample_n: if s.sample_n < u32::MAX {
            (s.sample_n + 1) as u32
        } else {
            s.sample_n
        },
        ..s
    }
}

/// The state after `n` more traced frames.
pub open spec fn after_frames(s: RaytraceState, n: nat) -> RaytraceState
    decreases n,
{
    if n == 0 {
        s
    } else {
        advanced(after_frames(s, (n - 1) as nat))
    }
}

/// While nothing changes, every frame adds one sample, up to the largest count,
/// and the sides take turns.
pub proof fn law_samples_accumulate(s: RaytraceState, n: nat)
    ensures
        after_frames(s, n).sample_n == (if s.sample_n + n <= u32::MAX {
            s.sample_n + n
        } else {
            u32::MAX as int
        }),
        after_frames(s, n).flip == (if n % 2 == 0 {
            s.flip
        } else {
            !s.flip
        }),
        after_frames(s, n).enabled == s.enabled,
        after_frames(s, n).surface_mode == s.surface_mode,
    decreases n,
{
    if n > 0 {
        law_samples_accumulate(s, (n - 1) as nat);
    }
}

} // verus!
