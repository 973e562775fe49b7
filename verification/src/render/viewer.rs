//! The viewer: everything that stays from frame to frame, and the calls that
//! touch more than one part of it.

use vstd::prelude::*;

use crate::render::avatar::{avatar_draws, AvatarDraw, Avatars};
use crate::render::frame::{frame, render, FrameInputs, FrameStep};
use crate::render::mascot::{LogoOverlay, Mascots};
use crate::render::mesh_greedy::MeshGreedyPool;
use crate::render::opaque::{
    chunks_cleared, draws, single_cleared, DrawPart, MeshDraw, MeshRoute, OpaqueScene,
};
use crate::render::overlays::{no_overlays, overlay_calls, DrawCall, Overlays};
use crate::render::pipelines::PipelineId;
use crate::render::raytrace::{advanced, raytrace_at_start, RaytraceState};
use crate::render::scene_data::{
    all_inside, brick_of, layout_kept, offsets, offsets_fit, settle_samples, BrickAction, BrickLayout,
    BrickState, CELL_BYTES,
};
use crate::render::speech_bubble::{any_visible, SpeechBubbles};
use crate::render::surface::{
    format_agrees, kept_extent, kept_start, surface_at_start, viewport_within, SurfaceState,
};
use crate::render::text::{names_drawn, Labels};

verus! {

/// State of the viewer.
#[derive(Debug)]
pub struct WgpuViewer {
    pub surface: SurfaceState,
    pub raytrace: RaytraceState,
    pub brick: BrickState,
    pub opaque: OpaqueScene,
    pub overlays: Overlays,
    pub avatars: Avatars,
    pub labels: Labels,
    pub logo: LogoOverlay,
    pub mascots: Mascots,
    pub speech_bubbles: SpeechBubbles,
    pub mesh_greedy_pool: MeshGreedyPool,
}

/// One draw of a pass that shows the scene.
#[derive(Clone, Copy, Debug)]
pub enum SceneDraw {
    /// A triangle over the whole target.
    Background(PipelineId),
    /// Indices of the opaque mesh.
    Mesh(MeshDraw),
    Overlay(DrawCall),
    Avatar(AvatarDraw),
}

/// What a frame depends on.
pub open spec fn inputs_of(v: WgpuViewer) -> FrameInputs {
    FrameInputs {
        raytrace: v.raytrace.enabled,
        flip: v.raytrace.flip,
        fast_preview: v.raytrace.fast_preview,
        start_screen: v.surface.start_screen_transparent,
        auto_exposure: v.surface.auto_exposure_enabled,
        gizmo_label: v.labels.gizmo_delta is Some,
        names: names_drawn(v.labels).len() > 0,
        bubbles: any_visible(v.speech_bubbles.bubbles@),
    }
}

/// Draws of the editing aids and avatars.
pub open spec fn aids(v: WgpuViewer) -> Seq<SceneDraw> {
    let calls = overlay_calls(v.overlays);
    let avatars = avatar_draws(v.avatars.meshes@, v.avatars.peers@, v.avatars.peers@.len() as int);
    as_overlays(calls.0) + as_avatars(avatars) + as_overlays(calls.1)
}

/// Draws of the opaque pass: background, surfaces, editing aids and avatars.
pub open spec fn opaque_pass(v: WgpuViewer) -> Seq<SceneDraw> {
    seq![
        SceneDraw::Background(
            if v.surface.start_screen_transparent {
                PipelineId::StartScreenBg
            } else {
                PipelineId::Sky
            },
        ),
    ] + as_meshes(draws(v.opaque, DrawPart::Opaque)) + aids(v)
}

/// Draws of editing aids, as draws of a pass.
pub open spec fn as_overlays(s: Seq<DrawCall>) -> Seq<SceneDraw> {
    Seq::new(s.len(), |i: int| SceneDraw::Overlay(s[i]))
}

/// Draws of avatars, as draws of a pass.
pub open spec fn as_avatars(s: Seq<AvatarDraw>) -> Seq<SceneDraw> {
    Seq::new(s.len(), |i: int| SceneDraw::Avatar(s[i]))
}

/// Draws of the mesh, as draws of a pass.
pub open spec fn as_meshes(s: Seq<MeshDraw>) -> Seq<SceneDraw> {
    Seq::new(s.len(), |i: int| SceneDraw::Mesh(s[i]))
}

fn push_overlays(out: &mut Vec<SceneDraw>, s: &Vec<DrawCall>)
    ensures
        final(out)@ == old(out)@ + as_overlays(s@),
{
    let n: usize = s.len();
    let mut i: usize = 0;
    while i < n
        invariant
            i <= n,
            n == s@.len(),
            out@ == old(out)@ + as_overlays(s@.take(i as int)),
        decreases n - i,
    {
        out.push(SceneDraw::Overlay(s[i]));
        assert(out@ =~= old(out)@ + as_overlays(s@.take(i as int + 1)));
        i += 1;
    }
    assert(s@.take(n as int) =~= s@);
}

fn push_avatars(out: &mut Vec<SceneDraw>, s: &Vec<AvatarDraw>)
    ensures
        final(out)@ == old(out)@ + as_avatars(s@),
{
    let n: usize = s.len();
    let mut i: usize = 0;
    while i < n
        invariant
            i <= n,
            n == s@.len(),
            out@ == old(out)@ + as_avatars(s@.take(i as int)),
        decreases n - i,
    {
        out.push(SceneDraw::Avatar(s[i]));
        assert(out@ =~= old(out)@ + as_avatars(s@.take(i as int + 1)));
        i += 1;
    }
    assert(s@.take(n as int) =~= s@);
}

fn push_meshes(out: &mut Vec<SceneDraw>, s: &Vec<MeshDraw>)
    ensures
        final(out)@ == old(out)@ + as_meshes(s@),
{
    let n: usize = s.len();
    let mut i: usize = 0;
    while i < n
        invariant
            i <= n,
            n == s@.len(),
            out@ == old(out)@ + as_meshes(s@.take(i as int)),
        decreases n - i,
    {
        out.push(SceneDraw::Mesh(s[i]));
        assert(out@ =~= old(out)@ + as_meshes(s@.take(i as int + 1)));
        i += 1;
    }
    assert(s@.take(n as int) =~= s@);
}

proof fn lemma_joined(a: Seq<DrawCall>, b: Seq<DrawCall>)
    ensures
        as_overlays(a) + as_overlays(b) == as_overlays(a + b),
{
    assert(as_overlays(a) + as_overlays(b) =~= as_overlays(a + b));
}

impl WgpuViewer {
    /// The parts keep their invariants.
    pub open spec fn well_formed(&self) -> bool {
        self.opaque.well_formed() && format_agrees(self.surface)
    }

    /// The viewer at the start: nothing uploaded, the start screen shown.
    pub fn new(sdr_format: u32, hdr_surface_format: Option<u32>, auto_exposure: bool) -> (r: WgpuViewer)
        ensures
            r.well_formed(),
            viewport_within(r.surface),
            r.surface == surface_at_start(sdr_format, hdr_surface_format, auto_exposure),
            r.raytrace == raytrace_at_start(),
            r.brick == brick_of(BrickLayout { origin: (0i32, 0i32, 0i32), dims: (0u32, 0u32, 0u32) }, 1),
            single_cleared(r.opaque),
            chunks_cleared(r.opaque),
            r.opaque.chunk_grid_origin == (0i32, 0i32, 0i32),
            r.opaque.pending@.len() == 0,
            r.opaque.route == MeshRoute::Unset,
            draws(r.opaque, DrawPart::All).len() == 0,
            r.overlays == no_overlays(),
            r.avatars.meshes@.len() == 0,
            r.avatars.peers@.len() == 0,
            aids(r).len() == 0,
            r.labels.gizmo_delta is None,
            r.labels.ping is None,
            r.labels.peers@.len() == 0,
            r.logo.logo is None,
            r.mascots.entries@.len() == 0,
            r.speech_bubbles.bubbles@.len() == 0,
            r.speech_bubbles.pending_dismissed@.len() == 0,
            !r.mesh_greedy_pool.counters,
            !r.mesh_greedy_pool.readback,
            r.mesh_greedy_pool.vtx_cap is None,
            r.mesh_greedy_pool.idx_cap is None,
            r.mesh_greedy_pool.kernel is None,
    {
        WgpuViewer {
            surface: SurfaceState::new(sdr_format, hdr_surface_format, auto_exposure),
            raytrace: RaytraceState::new(),
            brick: BrickState::new(),
            opaque: OpaqueScene::new(),
            overlays: Overlays::new(),
            avatars: Avatars::new(),
            labels: Labels::new(),
            logo: LogoOverlay::new(),
            mascots: Mascots::new(),
            speech_bubbles: SpeechBubbles::new(),
            mesh_greedy_pool: MeshGreedyPool::new(),
        }
    }

    /// The window has a new extent. Where that makes the targets anew, the ray
    /// tracer starts anew.
    pub fn resize(
        &mut self,
        surface_w: u32,
        surface_h: u32,
        viewport_x: u32,
        viewport_y: u32,
        viewport_width: u32,
        viewport_height: u32,
    ) -> (changed: bool)
        requires
            old(self).well_formed(),
        ensures
            final(self).well_formed(),
            changed == (surface_w > 0 && surface_h > 0),
            !changed ==> *final(self) == *old(self),
            changed ==> {
                let s = final(self).surface;
                &&& viewport_within(s)
                &&& s == (SurfaceState {
                    surface_width: surface_w,
                    surface_height: surface_h,
                    viewport_x: s.viewport_x,
                    viewport_y: s.viewport_y,
                    viewport_width: s.viewport_width,
                    viewport_height: s.viewport_height,
                    mascot_depth_width: surface_w,
                    mascot_depth_height: surface_h,
                    ..old(self).surface
                })
                &&& s.viewport_x == kept_start(viewport_x as int, surface_w as int)
                &&& s.viewport_y == kept_start(viewport_y as int, surface_h as int)
                &&& s.viewport_width == kept_extent(
                    viewport_x as int,
                    viewport_width as int,
                    surface_w as int,
                )
                &&& s.viewport_height == kept_extent(
                    viewport_y as int,
                    viewport_height as int,
                    surface_h as int,
                )
                &&& *final(self) == (WgpuViewer {
                    surface: s,
                    raytrace: RaytraceState { sample_n: 0, ..old(self).raytrace },
                    ..*old(self)
                })
            },
    {
        let changed = self.surface.resize(
            surface_w,
            surface_h,
            viewport_x,
            viewport_y,
            viewport_width,
            viewport_height,
        );
        if changed {
            self.raytrace.restart();
        }
        changed
    }

    /// What the next frame depends on.
    pub fn frame_inputs(&self) -> (r: FrameInputs)
        ensures
            r == inputs_of(*self),
    {
        FrameInputs {
            raytrace: self.raytrace.enabled,
            flip: self.raytrace.flip,
            fast_preview: self.raytrace.fast_preview,
            start_screen: self.surface.start_screen_transparent,
            auto_exposure: self.surface.auto_exposure_enabled,
            gizmo_label: self.labels.gizmo_delta.is_some(),
            names: self.labels.has_names(),
            bubbles: self.speech_bubbles.has_visible_speech_bubbles(),
        }
    }

    /// The steps of the next frame; a traced frame adds a sample.
    pub fn render(&mut self) -> (r: Vec<FrameStep>)
        requires
            old(self).well_formed(),
        ensures
            final(self).well_formed(),
            r@ == frame(inputs_of(*old(self))),
            *final(self) == (WgpuViewer {
                raytrace: if old(self).raytrace.enabled {
                    advanced(old(self).raytrace)
                } else {
                    old(self).raytrace
                },
                ..*old(self)
            }),
    {
        let f = self.frame_inputs();
        let r = render(&f);
        if self.raytrace.enabled {
            self.raytrace.advance();
        }
        r
    }

    /// Draws of the pass that shows editing aids over a traced picture.
    pub fn overlay_draws(&self) -> (r: Vec<SceneDraw>)
        ensures
            r@ == aids(*self),
    {
        let mut r: Vec<SceneDraw> = Vec::new();
        self.push_aids(&mut r);
        assert(r@ =~= aids(*self));
        r
    }

    fn push_aids(&self, out: &mut Vec<SceneDraw>)
        ensures
            final(out)@ == old(out)@ + aids(*self),
    {
        let a = self.overlays.draw_indexed_selection_overlay_solid();
        let b = self.overlays.draw_indexed_preview();
        let c = self.overlays.draw_selection_overlay_lines();
        let d = self.overlays.draw_grid_border_lines();
        let e = self.avatars.render_avatars();
        let g = self.overlays.draw_ping_wave_lines();
        let h = self.overlays.draw_indexed_ping();
        let i = self.overlays.draw_gizmo();
        push_overlays(out, &a);
        push_overlays(out, &b);
        push_overlays(out, &c);
        push_overlays(out, &d);
        push_avatars(out, &e);
        push_overlays(out, &g);
        push_overlays(out, &h);
        push_overlays(out, &i);
        proof {
            lemma_joined(a@, b@);
            lemma_joined(a@ + b@, c@);
            lemma_joined(a@ + b@ + c@, d@);
            lemma_joined(g@, h@);
            lemma_joined(g@ + h@, i@);
            let o = old(out)@;
            let first = as_overlays(a@ + b@ + c@ + d@);
            let second = as_overlays(g@ + h@ + i@);
            let mid = as_avatars(e@);
            assert(o + as_overlays(a@) + as_overlays(b@) + as_overlays(c@) + as_overlays(d@) =~= o
                + first) by {
                assert(as_overlays(a@) + as_overlays(b@) + as_overlays(c@) + as_overlays(d@)
                    == first);
            }
            assert(as_overlays(g@) + as_overlays(h@) + as_overlays(i@) == second);
            assert(out@ =~= o + first + mid + second);
            assert(o + first + mid + second =~= o + (first + mid + second));
        }
    }

    /// Draws of the opaque pass.
    pub fn opaque_draws(&self) -> (r: Vec<SceneDraw>)
        requires
            self.well_formed(),
        ensures
            r@ == opaque_pass(*self),
    {
        let mut r: Vec<SceneDraw> = Vec::new();
        r.push(
            SceneDraw::Background(
                if self.surface.start_screen_transparent {
                    PipelineId::StartScreenBg
                } else {
                    PipelineId::Sky
                },
            ),
        );
        let ghost background = r@;
        let m = self.opaque.draw_indexed_mesh();
        push_meshes(&mut r, &m);
        self.push_aids(&mut r);
        assert(r@ =~= opaque_pass(*self));
        r
    }

    /// The lighting changed. The result says whether automatic exposure forgets
    /// what it has adapted to.
    pub fn apply_lighting_settings(&mut self, auto_exposure: bool) -> (forget: bool)
        requires
            old(self).well_formed(),
        ensures
            final(self).well_formed(),
            forget == (auto_exposure && !old(self).surface.auto_exposure_enabled),
            *final(self) == (WgpuViewer {
                surface: SurfaceState {
                    auto_exposure_enabled: auto_exposure,
                    ..old(self).surface
                },
                raytrace: RaytraceState { sample_n: 0, ..old(self).raytrace },
                ..*old(self)
            }),
    {
        let forget = self.surface.set_auto_exposure(auto_exposure);
        self.raytrace.restart();
        forget
    }

    /// The mood changed: a running ray tracer starts anew with a cheap frame.
    pub fn set_mood_params(&mut self)
        requires
            old(self).well_formed(),
        ensures
            final(self).well_formed(),
            *final(self) == (WgpuViewer {
                raytrace: if old(self).raytrace.enabled {
                    RaytraceState { sample_n: 0, fast_preview: true, ..old(self).raytrace }
                } else {
                    old(self).raytrace
                },
                ..*old(self)
            }),
    {
        self.raytrace.note_mood();
    }

    /// The model changed in at most one cell.
    pub fn upload_scene_data(
        &mut self,
        wanted: &Option<BrickLayout>,
        patch: &Option<Option<u64>>,
    ) -> (r: BrickAction)
        requires
            old(self).well_formed(),
            patch is Some && (patch->0) is Some ==> (patch->0)->0 * CELL_BYTES <= u64::MAX,
        ensures
            final(self).well_formed(),
            if layout_kept(old(self).brick, *wanted) && patch is Some && (patch->0) is Some {
                &&& r matches BrickAction::Patch(o) && o@ == seq![
                    ((patch->0)->0 * CELL_BYTES) as u64,
                ]
                &&& *final(self) == *old(self)
            } else {
                &&& r is Rebuild
                &&& *final(self) == (WgpuViewer {
                    raytrace: RaytraceState { sample_n: 0, ..old(self).raytrace },
                    ..*old(self)
                })
            },
    {
        let r = self.brick.upload_scene_data(wanted, patch);
        let patched = match &r {
            BrickAction::Patch(_) => true,
            BrickAction::Rebuild => false,
        };
        settle_samples(&mut self.raytrace, true, patched);
        r
    }

    /// The model changed in some cells.
    pub fn upload_scene_data_patches(
        &mut self,
        wanted: &Option<BrickLayout>,
        cells: &[Option<u64>],
    ) -> (r: BrickAction)
        requires
            old(self).well_formed(),
            offsets_fit(cells@),
        ensures
            final(self).well_formed(),
            if layout_kept(old(self).brick, *wanted) && all_inside(cells@) {
                &&& r matches BrickAction::Patch(o) && o@ == offsets(cells@)
                &&& *final(self) == (WgpuViewer {
                    raytrace: RaytraceState { sample_n: 0, ..old(self).raytrace },
                    ..*old(self)
                })
            } else {
                r is Rebuild && *final(self) == *old(self)
            },
    {
        let r = self.brick.upload_scene_data_patches(wanted, cells);
        let patched = match &r {
            BrickAction::Patch(_) => true,
            BrickAction::Rebuild => false,
        };
        settle_samples(&mut self.raytrace, false, patched);
        r
    }

    /// A voxel brick was made anew, which throws the gathered samples away.
    pub fn upload_scene_data_from_brick(&mut self, layout: BrickLayout, cells: usize)
        requires
            old(self).well_formed(),
        ensures
            final(self).well_formed(),
            *final(self) == (WgpuViewer {
                brick: brick_of(layout, cells as int),
                raytrace: RaytraceState { sample_n: 0, ..old(self).raytrace },
                ..*old(self)
            }),
    {
        self.brick.upload_scene_data_from_brick(layout, cells);
        self.raytrace.restart();
    }
}

} // verus!
