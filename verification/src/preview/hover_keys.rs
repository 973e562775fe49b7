//! Cache keys of the hover preview, from the settings and the pointer.

use vstd::prelude::*;

use crate::collections::{cells_sorted, entries, CoordMap};
use crate::preview::generator_keys::{
    hash_generator_ashlar_hover, hash_generator_cloth_hover, hash_generator_fauna_hover,
    hash_generator_flora_hover, hash_generator_grass_hover, hash_generator_insecta_hover,
    hash_generator_piscina_hover, hash_generator_rock_hover, hash_generator_roof_hover,
    hash_generator_rope_hover, hash_generator_shape_hover, AshlarHover, ClothHover, FaunaHover,
    FloraHover, GrassHover, InsectaHover, PiscinaHover, RockHover, RoofHover, RopeHover,
    ShapeHover,
};
use crate::preview::keys::{
    hash_preview_miss, hash_single_cell_preview, miss_key, possible_key, single_cell_key, KeyWord,
};
use crate::preview::mode::{Generator, PreviewMode};
use crate::preview::session_keys::{
    bone_key, brush_key, hash_bone_preview, hash_brush_hover_targets, hash_squishy_preview,
    hash_stamp_preview, squishy_key, stamp_key, BoneSession, BrushHover, ClipEntry,
    SquishySession,
};
use crate::preview::settings::{PreviewFacts, PreviewHoverContext};
use crate::voxelle::VoxelCoord;

verus! {

/// The number minus one, by its bit pattern.
pub const MINUS_ONE: u32 = 0xbf80_0000;

/// Texel under the pointer; the corner without one.
pub open spec fn pointer_spot(f: PreviewFacts) -> (u32, u32) {
    match f.cursor {
        Some(p) => p,
        None => (0, 0),
    }
}

/// Where a shape is: the cell of the gizmo in two words, or the texel under the pointer.
pub open spec fn shape_spot(f: PreviewFacts) -> (u32, u32) {
    match f.gizmo_origin {
        Some(o) => (o.0 as u32, (o.1 as u32).wrapping_add(o.2 as u32)),
        None => pointer_spot(f),
    }
}

/// Texel under the pointer for a skeleton session; minus one without one.
pub open spec fn skeleton_spot(f: PreviewFacts) -> (u32, u32) {
    match f.cursor {
        Some(p) => p,
        None => (0xbf80_0000, 0xbf80_0000),
    }
}

/// First voxel of a rope; the origin before it is set.
pub open spec fn rope_start(h: PreviewHoverContext) -> VoxelCoord {
    match h.generator_rope_first_voxel {
        Some(c) => c,
        None => (0, 0, 0),
    }
}

fn spot_of_pointer(f: &PreviewFacts) -> (r: (u32, u32))
    ensures
        r == pointer_spot(*f),
{
    match f.cursor {
        Some(p) => p,
        None => (0, 0),
    }
}

fn spot_of_shape(f: &PreviewFacts) -> (r: (u32, u32))
    ensures
        r == shape_spot(*f),
{
    match f.gizmo_origin {
        Some(o) => (o.0 as u32, (o.1 as u32).wrapping_add(o.2 as u32)),
        None => spot_of_pointer(f),
    }
}

fn start_of_rope(h: &PreviewHoverContext) -> (r: VoxelCoord)
    ensures
        r == rope_start(*h),
{
    match h.generator_rope_first_voxel {
        Some(c) => c,
        None => (0, 0, 0),
    }
}

fn copied_cells(cells: &Vec<VoxelCoord>) -> (r: Vec<VoxelCoord>)
    ensures
        r@ == cells@,
{
    let mut out: Vec<VoxelCoord> = Vec::new();
    let mut i: usize = 0;
    assert(out@ =~= cells@.take(0));
    while i < cells.len()
        invariant
            0 <= i <= cells@.len(),
            out@ == cells@.take(i as int),
        decreases cells@.len() - i,
    {
        out.push(cells[i]);
        assert(out@ =~= cells@.take(i as int + 1));
        i += 1;
    }
    assert(cells@.take(i as int) =~= cells@);
    out
}

/// What decides the preview of a rope.
pub open spec fn rope_hover(f: PreviewFacts, h: PreviewHoverContext) -> RopeHover {
    RopeHover {
        h1: rope_start(h),
        sx2: pointer_spot(f).0,
        sy2: pointer_spot(f).1,
        tension: h.generator_rope_tension,
        gravity_dir: h.generator_rope_gravity_direction,
        brush_radius: h.brush_radius,
        brush_shape: h.brush_shape,
        color: h.color,
        dbg: f.debug_overlay,
        mesh_gen: f.mesh_generation,
    }
}

/// What decides the preview of a cloth.
pub open spec fn cloth_hover(f: PreviewFacts, h: PreviewHoverContext) -> ClothHover {
    ClothHover {
        pins: h.generator_cloth_pins,
        tension: h.generator_cloth_tension,
        gravity_dir: h.generator_cloth_gravity_direction,
        gravity_scale: h.generator_cloth_gravity_scale,
        stiffness_scale: h.generator_cloth_stiffness_scale,
        iterations: h.generator_cloth_iterations,
        passes: h.generator_cloth_constraint_passes,
        brush_radius: h.brush_radius,
        brush_shape: h.brush_shape,
        color: h.color,
        dbg: f.debug_overlay,
        mesh_gen: f.mesh_generation,
    }
}

/// What decides the preview of rocks.
pub open spec fn rock_hover(f: PreviewFacts, h: PreviewHoverContext) -> RockHover {
    RockHover {
        sx: pointer_spot(f).0,
        sy: pointer_spot(f).1,
        size: h.generator_rock_size,
        roughness: h.generator_rock_roughness,
        seed: h.generator_rock_seed,
        color: h.color,
        dbg: f.debug_overlay,
        mesh_gen: f.mesh_generation,
        count: h.generator_rock_count,
        cluster_radius: h.generator_rock_cluster_radius,
        sink_direction: h.generator_rock_sink_direction,
        sink_amount: h.generator_rock_sink_amount,
    }
}

/// What decides the preview of a shape.
pub open spec fn shape_hover(f: PreviewFacts, h: PreviewHoverContext) -> ShapeHover {
    ShapeHover {
        sx: shape_spot(f).0,
        sy: shape_spot(f).1,
        shape_kind: h.generator_shape_kind,
        size: h.generator_shape_size,
        rot_x: h.generator_shape_rot_x,
        rot_y: h.generator_shape_rot_y,
        rot_z: h.generator_shape_rot_z,
        overwrite: h.generator_shape_overwrite,
        color: h.color,
        dbg: f.debug_overlay,
        mesh_gen: f.mesh_generation,
    }
}

/// What decides the preview of grass.
pub open spec fn grass_hover(f: PreviewFacts, h: PreviewHoverContext) -> GrassHover {
    GrassHover {
        sx: pointer_spot(f).0,
        sy: pointer_spot(f).1,
        radius: h.generator_grass_radius,
        density: h.generator_grass_density,
        max_height: h.generator_grass_max_height,
        seed: h.generator_grass_seed,
        color: h.color,
        dbg: f.debug_overlay,
        mesh_gen: f.mesh_generation,
    }
}

/// What decides the preview of masonry.
pub open spec fn ashlar_hover(f: PreviewFacts, h: PreviewHoverContext) -> AshlarHover {
    AshlarHover {
        sx: pointer_spot(f).0,
        sy: pointer_spot(f).1,
        size: h.generator_ashlar_size,
        roughness: h.generator_ashlar_roughness,
        seed: h.generator_ashlar_seed,
        thickness: h.generator_ashlar_thickness,
        color: h.color,
        dbg: f.debug_overlay,
        mesh_gen: f.mesh_generation,
    }
}

/// What decides the preview of plants.
pub open spec fn flora_hover(f: PreviewFacts, h: PreviewHoverContext) -> FloraHover {
    FloraHover {
        sx: pointer_spot(f).0,
        sy: pointer_spot(f).1,
        seed: h.generator_flora_seed,
        height: h.generator_flora_height,
        girth: h.generator_flora_girth,
        wobble: h.generator_flora_wobble,
        taper: h.generator_flora_taper,
        stem_count: h.generator_flora_stem_count,
        cluster_radius: h.generator_flora_cluster_radius,
        branch_count: h.generator_flora_branch_count,
        branch_depth: h.generator_flora_branch_depth,
        branch_start: h.generator_flora_branch_start,
        branch_spread: h.generator_flora_branch_spread,
        braid_strands: h.generator_flora_braid_strands,
        braid_twist: h.generator_flora_braid_twist,
        canopy: h.generator_flora_canopy,
        color: h.color,
        dbg: f.debug_overlay,
        mesh_gen: f.mesh_generation,
    }
}

/// What decides the preview of an insect.
pub open spec fn insecta_hover(f: PreviewFacts, h: PreviewHoverContext) -> InsectaHover {
    InsectaHover {
        sx: pointer_spot(f).0,
        sy: pointer_spot(f).1,
        species: h.generator_insecta_species,
        total_length: h.generator_insecta_total_length,
        head_ratio: h.generator_insecta_head_ratio,
        thorax_ratio: h.generator_insecta_thorax_ratio,
        abdomen_ratio: h.generator_insecta_abdomen_ratio,
        body_half_width: h.generator_insecta_body_half_width,
        body_half_height: h.generator_insecta_body_half_height,
        abdomen_taper: h.generator_insecta_abdomen_taper,
        head_shape: h.generator_insecta_head_shape,
        anchor_offset_u: h.generator_insecta_anchor_offset_u,
        anchor_offset_v: h.generator_insecta_anchor_offset_v,
        body_yaw: h.generator_insecta_body_yaw,
        body_arch: h.generator_insecta_body_arch,
        antenna_length: h.generator_insecta_antenna_length,
        antenna_spread: h.generator_insecta_antenna_spread,
        antenna_pitch: h.generator_insecta_antenna_pitch,
        antenna_root: h.generator_insecta_antenna_root,
        mandible_length: h.generator_insecta_mandible_length,
        mandible_spread: h.generator_insecta_mandible_spread,
        mandible_forward: h.generator_insecta_mandible_forward,
        wing_shape: h.generator_insecta_wing_shape,
        show_wing_fore: h.generator_insecta_show_wing_fore,
        wing_fore_length: h.generator_insecta_wing_fore_length,
        wing_fore_width: h.generator_insecta_wing_fore_width,
        wing_fore_spread: h.generator_insecta_wing_fore_spread,
        wing_fore_pitch: h.generator_insecta_wing_fore_pitch,
        wing_fore_offset: h.generator_insecta_wing_fore_offset,
        wing_fore_forward_cant: h.generator_insecta_wing_fore_forward_cant,
        show_wing_hind: h.generator_insecta_show_wing_hind,
        wing_hind_length: h.generator_insecta_wing_hind_length,
        wing_hind_width: h.generator_insecta_wing_hind_width,
        wing_hind_spread: h.generator_insecta_wing_hind_spread,
        wing_hind_pitch: h.generator_insecta_wing_hind_pitch,
        wing_hind_offset: h.generator_insecta_wing_hind_offset,
        color: h.color,
        dbg: f.debug_overlay,
        mesh_gen: f.mesh_generation,
    }
}

/// What decides the preview of an animal.
pub open spec fn fauna_hover(f: PreviewFacts, h: PreviewHoverContext) -> FaunaHover {
    FaunaHover {
        sx: pointer_spot(f).0,
        sy: pointer_spot(f).1,
        stance: h.generator_fauna_stance,
        archetype: h.generator_fauna_archetype,
        anchor_offset_u: h.generator_fauna_anchor_offset_u,
        anchor_offset_v: h.generator_fauna_anchor_offset_v,
        body_yaw: h.generator_fauna_body_yaw,
        body_arch: h.generator_fauna_body_arch,
        spine_segments: h.generator_fauna_spine_segments,
        body_length: h.generator_fauna_body_length,
        body_half_width: h.generator_fauna_body_half_width,
        body_half_height: h.generator_fauna_body_half_height,
        neck_length: h.generator_fauna_neck_length,
        neck_half_width: h.generator_fauna_neck_half_width,
        neck_half_height: h.generator_fauna_neck_half_height,
        head_length: h.generator_fauna_head_length,
        head_half_width: h.generator_fauna_head_half_width,
        head_half_height: h.generator_fauna_head_half_height,
        tail_length: h.generator_fauna_tail_length,
        shoulder_offset_forward: h.generator_fauna_shoulder_offset_forward,
        hip_offset_forward: h.generator_fauna_hip_offset_forward,
        front_upper_length: h.generator_fauna_front_upper_length,
        front_lower_length: h.generator_fauna_front_lower_length,
        hind_upper_length: h.generator_fauna_hind_upper_length,
        hind_lower_length: h.generator_fauna_hind_lower_length,
        auto_foot_placement: h.generator_fauna_auto_foot_placement,
        color: h.color,
        dbg: f.debug_overlay,
        mesh_gen: f.mesh_generation,
    }
}

/// What decides the preview of a fish.
pub open spec fn piscina_hover(f: PreviewFacts, h: PreviewHoverContext) -> PiscinaHover {
    PiscinaHover {
        sx: pointer_spot(f).0,
        sy: pointer_spot(f).1,
        seed: h.generator_piscina_seed,
        species: h.generator_piscina_species,
        length: h.generator_piscina_length,
        width_param: h.generator_piscina_width,
        thickness: h.generator_piscina_thickness,
        spine_bend: h.generator_piscina_spine_bend,
        spine_s_curve: h.generator_piscina_spine_s_curve,
        fin_dorsal: h.generator_piscina_fin_dorsal,
        fin_anal: h.generator_piscina_fin_anal,
        fin_caudal: h.generator_piscina_fin_caudal,
        fin_pectoral: h.generator_piscina_fin_pectoral,
        fin_pelvic: h.generator_piscina_fin_pelvic,
        fin_adipose: h.generator_piscina_fin_adipose,
        show_fin_dorsal: h.generator_piscina_show_fin_dorsal,
        show_fin_anal: h.generator_piscina_show_fin_anal,
        show_fin_caudal: h.generator_piscina_show_fin_caudal,
        show_fin_pectoral: h.generator_piscina_show_fin_pectoral,
        show_fin_pelvic: h.generator_piscina_show_fin_pelvic,
        show_fin_adipose: h.generator_piscina_show_fin_adipose,
        anchor_offset_u: h.generator_piscina_anchor_offset_u,
        anchor_offset_v: h.generator_piscina_anchor_offset_v,
        color: h.color,
        dbg: f.debug_overlay,
        mesh_gen: f.mesh_generation,
    }
}

/// What decides the preview of a roof.
pub open spec fn roof_hover(f: PreviewFacts, h: PreviewHoverContext) -> RoofHover {
    RoofHover {
        pins: h.generator_roof_pins,
        style: h.generator_roof_style,
        height: h.generator_roof_height,
        thickness: h.generator_roof_thickness,
        break_ratio: h.generator_roof_break_ratio,
        wall_height: h.generator_roof_wall_height,
        parapet_height: h.generator_roof_parapet_height,
        salt_skew: h.generator_roof_salt_skew,
        hollow: h.generator_roof_hollow,
        color: h.color,
        dbg: f.debug_overlay,
        mesh_gen: f.mesh_generation,
    }
}

fn make_rope_hover(f: &PreviewFacts, h: &PreviewHoverContext) -> (r: RopeHover)
    ensures
        r == rope_hover(*f, *h),
{
    let at = spot_of_pointer(f);
    RopeHover {
        h1: start_of_rope(h),
        sx2: at.0,
        sy2: at.1,
        tension: h.generator_rope_tension,
        gravity_dir: h.generator_rope_gravity_direction.clone(),
        brush_radius: h.brush_radius,
        brush_shape: h.brush_shape,
        color: h.color,
        dbg: f.debug_overlay,
        mesh_gen: f.mesh_generation,
    }
}

fn make_cloth_hover(f: &PreviewFacts, h: &PreviewHoverContext) -> (r: ClothHover)
    ensures
        r.key() == cloth_hover(*f, *h).key(),
{
    ClothHover {
        pins: copied_cells(&h.generator_cloth_pins),
        tension: h.generator_cloth_tension,
        gravity_dir: h.generator_cloth_gravity_direction.clone(),
        gravity_scale: h.generator_cloth_gravity_scale,
        stiffness_scale: h.generator_cloth_stiffness_scale,
        iterations: h.generator_cloth_iterations,
        passes: h.generator_cloth_constraint_passes,
        brush_radius: h.brush_radius,
        brush_shape: h.brush_shape,
        color: h.color,
        dbg: f.debug_overlay,
        mesh_gen: f.mesh_generation,
    }
}

fn make_rock_hover(f: &PreviewFacts, h: &PreviewHoverContext) -> (r: RockHover)
    ensures
        r == rock_hover(*f, *h),
{
    let at = spot_of_pointer(f);
    RockHover {
        sx: at.0,
        sy: at.1,
        size: h.generator_rock_size,
        roughness: h.generator_rock_roughness,
        seed: h.generator_rock_seed,
        color: h.color,
        dbg: f.debug_overlay,
        mesh_gen: f.mesh_generation,
        count: h.generator_rock_count,
        cluster_radius: h.generator_rock_cluster_radius,
        sink_direction: h.generator_rock_sink_direction,
        sink_amount: h.generator_rock_sink_amount,
    }
}

fn make_shape_hover(f: &PreviewFacts, h: &PreviewHoverContext) -> (r: ShapeHover)
    ensures
        r == shape_hover(*f, *h),
{
    let at = spot_of_shape(f);
    ShapeHover {
        sx: at.0,
        sy: at.1,
        shape_kind: h.generator_shape_kind.clone(),
        size: h.generator_shape_size,
        rot_x: h.generator_shape_rot_x,
        rot_y: h.generator_shape_rot_y,
        rot_z: h.generator_shape_rot_z,
        overwrite: h.generator_shape_overwrite,
        color: h.color,
        dbg: f.debug_overlay,
        mesh_gen: f.mesh_generation,
    }
}

fn make_grass_hover(f: &PreviewFacts, h: &PreviewHoverContext) -> (r: GrassHover)
    ensures
        r == grass_hover(*f, *h),
{
    let at = spot_of_pointer(f);
    GrassHover {
        sx: at.0,
        sy: at.1,
        radius: h.generator_grass_radius,
        density: h.generator_grass_density,
        max_height: h.generator_grass_max_height,
        seed: h.generator_grass_seed,
        color: h.color,
        dbg: f.debug_overlay,
        mesh_gen: f.mesh_generation,
    }
}

fn make_ashlar_hover(f: &PreviewFacts, h: &PreviewHoverContext) -> (r: AshlarHover)
    ensures
        r == ashlar_hover(*f, *h),
{
    let at = spot_of_pointer(f);
    AshlarHover {
        sx: at.0,
        sy: at.1,
        size: h.generator_ashlar_size,
        roughness: h.generator_ashlar_roughness,
        seed: h.generator_ashlar_seed,
        thickness: h.generator_ashlar_thickness,
        color: h.color,
        dbg: f.debug_overlay,
        mesh_gen: f.mesh_generation,
    }
}

fn make_flora_hover(f: &PreviewFacts, h: &PreviewHoverContext) -> (r: FloraHover)
    ensures
        r == flora_hover(*f, *h),
{
    let at = spot_of_pointer(f);
    FloraHover {
        sx: at.0,
        sy: at.1,
        seed: h.generator_flora_seed,
        height: h.generator_flora_height,
        girth: h.generator_flora_girth,
        wobble: h.generator_flora_wobble,
        taper: h.generator_flora_taper,
        stem_count: h.generator_flora_stem_count,
        cluster_radius: h.generator_flora_cluster_radius,
        branch_count: h.generator_flora_branch_count,
        branch_depth: h.generator_flora_branch_depth,
        branch_start: h.generator_flora_branch_start,
        branch_spread: h.generator_flora_branch_spread,
        braid_strands: h.generator_flora_braid_strands,
        braid_twist: h.generator_flora_braid_twist,
        canopy: h.generator_flora_canopy,
        color: h.color,
        dbg: f.debug_overlay,
        mesh_gen: f.mesh_generation,
    }
}

fn make_insecta_hover(f: &PreviewFacts, h: &PreviewHoverContext) -> (r: InsectaHover)
    ensures
        r == insecta_hover(*f, *h),
{
    let at = spot_of_pointer(f);
    InsectaHover {
        sx: at.0,
        sy: at.1,
        species: h.generator_insecta_species.clone(),
        total_length: h.generator_insecta_total_length,
        head_ratio: h.generator_insecta_head_ratio,
        thorax_ratio: h.generator_insecta_thorax_ratio,
        abdomen_ratio: h.generator_insecta_abdomen_ratio,
        body_half_width: h.generator_insecta_body_half_width,
        body_half_height: h.generator_insecta_body_half_height,
        abdomen_taper: h.generator_insecta_abdomen_taper,
        head_shape: h.generator_insecta_head_shape,
        anchor_offset_u: h.generator_insecta_anchor_offset_u,
        anchor_offset_v: h.generator_insecta_anchor_offset_v,
        body_yaw: h.generator_insecta_body_yaw,
        body_arch: h.generator_insecta_body_arch,
        antenna_length: h.generator_insecta_antenna_length,
        antenna_spread: h.generator_insecta_antenna_spread,
        antenna_pitch: h.generator_insecta_antenna_pitch,
        antenna_root: h.generator_insecta_antenna_root,
        mandible_length: h.generator_insecta_mandible_length,
        mandible_spread: h.generator_insecta_mandible_spread,
        mandible_forward: h.generator_insecta_mandible_forward,
        wing_shape: h.generator_insecta_wing_shape,
        show_wing_fore: h.generator_insecta_show_wing_fore,
        wing_fore_length: h.generator_insecta_wing_fore_length,
        wing_fore_width: h.generator_insecta_wing_fore_width,
        wing_fore_spread: h.generator_insecta_wing_fore_spread,
        wing_fore_pitch: h.generator_insecta_wing_fore_pitch,
        wing_fore_offset: h.generator_insecta_wing_fore_offset,
        wing_fore_forward_cant: h.generator_insecta_wing_fore_forward_cant,
        show_wing_hind: h.generator_insecta_show_wing_hind,
        wing_hind_length: h.generator_insecta_wing_hind_length,
        wing_hind_width: h.generator_insecta_wing_hind_width,
        wing_hind_spread: h.generator_insecta_wing_hind_spread,
        wing_hind_pitch: h.generator_insecta_wing_hind_pitch,
        wing_hind_offset: h.generator_insecta_wing_hind_offset,
        color: h.color,
        dbg: f.debug_overlay,
        mesh_gen: f.mesh_generation,
    }
}

fn make_fauna_hover(f: &PreviewFacts, h: &PreviewHoverContext) -> (r: FaunaHover)
    ensures
        r == fauna_hover(*f, *h),
{
    let at = spot_of_pointer(f);
    FaunaHover {
        sx: at.0,
        sy: at.1,
        stance: h.generator_fauna_stance.clone(),
        archetype: h.generator_fauna_archetype.clone(),
        anchor_offset_u: h.generator_fauna_anchor_offset_u,
        anchor_offset_v: h.generator_fauna_anchor_offset_v,
        body_yaw: h.generator_fauna_body_yaw,
        body_arch: h.generator_fauna_body_arch,
        spine_segments: h.generator_fauna_spine_segments,
        body_length: h.generator_fauna_body_length,
        body_half_width: h.generator_fauna_body_half_width,
        body_half_height: h.generator_fauna_body_half_height,
        neck_length: h.generator_fauna_neck_length,
        neck_half_width: h.generator_fauna_neck_half_width,
        neck_half_height: h.generator_fauna_neck_half_height,
        head_length: h.generator_fauna_head_length,
        head_half_width: h.generator_fauna_head_half_width,
        head_half_height: h.generator_fauna_head_half_height,
        tail_length: h.generator_fauna_tail_length,
        shoulder_offset_forward: h.generator_fauna_shoulder_offset_forward,
        hip_offset_forward: h.generator_fauna_hip_offset_forward,
        front_upper_length: h.generator_fauna_front_upper_length,
        front_lower_length: h.generator_fauna_front_lower_length,
        hind_upper_length: h.generator_fauna_hind_upper_length,
        hind_lower_length: h.generator_fauna_hind_lower_length,
        auto_foot_placement: h.generator_fauna_auto_foot_placement,
        color: h.color,
        dbg: f.debug_overlay,
        mesh_gen: f.mesh_generation,
    }
}

fn make_piscina_hover(f: &PreviewFacts, h: &PreviewHoverContext) -> (r: PiscinaHover)
    ensures
        r == piscina_hover(*f, *h),
{
    let at = spot_of_pointer(f);
    PiscinaHover {
        sx: at.0,
        sy: at.1,
        seed: h.generator_piscina_seed,
        species: h.generator_piscina_species.clone(),
        length: h.generator_piscina_length,
        width_param: h.generator_piscina_width,
        thickness: h.generator_piscina_thickness,
        spine_bend: h.generator_piscina_spine_bend,
        spine_s_curve: h.generator_piscina_spine_s_curve,
        fin_dorsal: h.generator_piscina_fin_dorsal,
        fin_anal: h.generator_piscina_fin_anal,
        fin_caudal: h.generator_piscina_fin_caudal,
        fin_pectoral: h.generator_piscina_fin_pectoral,
        fin_pelvic: h.generator_piscina_fin_pelvic,
        fin_adipose: h.generator_piscina_fin_adipose,
        show_fin_dorsal: h.generator_piscina_show_fin_dorsal,
        show_fin_anal: h.generator_piscina_show_fin_anal,
        show_fin_caudal: h.generator_piscina_show_fin_caudal,
        show_fin_pectoral: h.generator_piscina_show_fin_pectoral,
        show_fin_pelvic: h.generator_piscina_show_fin_pelvic,
        show_fin_adipose: h.generator_piscina_show_fin_adipose,
        anchor_offset_u: h.generator_piscina_anchor_offset_u,
        anchor_offset_v: h.generator_piscina_anchor_offset_v,
        color: h.color,
        dbg: f.debug_overlay,
        mesh_gen: f.mesh_generation,
    }
}

fn make_roof_hover(f: &PreviewFacts, h: &PreviewHoverContext) -> (r: RoofHover)
    ensures
        r.key() == roof_hover(*f, *h).key(),
{
    RoofHover {
        pins: copied_cells(&h.generator_roof_pins),
        style: h.generator_roof_style.clone(),
        height: h.generator_roof_height,
        thickness: h.generator_roof_thickness,
        break_ratio: h.generator_roof_break_ratio,
        wall_height: h.generator_roof_wall_height,
        parapet_height: h.generator_roof_parapet_height,
        salt_skew: h.generator_roof_salt_skew,
        hollow: h.generator_roof_hollow,
        color: h.color,
        dbg: f.debug_overlay,
        mesh_gen: f.mesh_generation,
    }
}

/// Words of the key of the preview of a generator.
pub open spec fn generator_words(
    f: PreviewFacts,
    h: PreviewHoverContext,
    g: Generator,
) -> Seq<KeyWord> {
    match g {
        Generator::Rope => rope_hover(f, h).key(),
        Generator::Cloth => cloth_hover(f, h).key(),
        Generator::Rocks => rock_hover(f, h).key(),
        Generator::Shape => shape_hover(f, h).key(),
        Generator::Grass => grass_hover(f, h).key(),
        Generator::Ashlar => ashlar_hover(f, h).key(),
        Generator::Flora => flora_hover(f, h).key(),
        Generator::Insecta => insecta_hover(f, h).key(),
        Generator::Fauna => fauna_hover(f, h).key(),
        Generator::Piscina => piscina_hover(f, h).key(),
        Generator::Roof => roof_hover(f, h).key(),
    }
}

/// Cache key of the preview of a generator.
pub fn generator_key(f: &PreviewFacts, h: &PreviewHoverContext, g: Generator) -> (r: u64)
    ensures
        possible_key(generator_words(*f, *h, g), r),
{
    match g {
        Generator::Rope => hash_generator_rope_hover(&make_rope_hover(f, h)),
        Generator::Cloth => hash_generator_cloth_hover(&make_cloth_hover(f, h)),
        Generator::Rocks => hash_generator_rock_hover(&make_rock_hover(f, h)),
        Generator::Shape => hash_generator_shape_hover(&make_shape_hover(f, h)),
        Generator::Grass => hash_generator_grass_hover(&make_grass_hover(f, h)),
        Generator::Ashlar => hash_generator_ashlar_hover(&make_ashlar_hover(f, h)),
        Generator::Flora => hash_generator_flora_hover(&make_flora_hover(f, h)),
        Generator::Insecta => hash_generator_insecta_hover(&make_insecta_hover(f, h)),
        Generator::Fauna => hash_generator_fauna_hover(&make_fauna_hover(f, h)),
        Generator::Piscina => hash_generator_piscina_hover(&make_piscina_hover(f, h)),
        Generator::Roof => hash_generator_roof_hover(&make_roof_hover(f, h)),
    }
}

/// Tag of an editing mode in the key of a preview of one cell.
pub open spec fn mode_tag(mode: PreviewMode) -> u8 {
    match mode {
        PreviewMode::Remove => 1,
        PreviewMode::Paint => 2,
        PreviewMode::Select => 3,
        _ => 0,
    }
}

/// Words of the key of the preview of the cell under the pointer and its object. The
/// colour of a selection is fixed, so that the key does not hold it.
pub open spec fn cell_words(
    f: PreviewFacts,
    h: PreviewHoverContext,
    cell: Option<(VoxelCoord, u32)>,
) -> Seq<KeyWord> {
    match cell {
        Some(c) => single_cell_key(
            f.mode,
            c.0,
            mode_tag(f.mode),
            f.debug_overlay,
            if f.mode == PreviewMode::Select {
                0
            } else {
                h.color
            },
            c.1,
        ),
        None => miss_key(f.mode, f.debug_overlay),
    }
}

/// Cache key of the preview of the cell under the pointer.
pub fn cell_key(
    f: &PreviewFacts,
    h: &PreviewHoverContext,
    cell: Option<(VoxelCoord, u32)>,
) -> (r: u64)
    ensures
        possible_key(cell_words(*f, *h, cell), r),
{
    match cell {
        Some(c) => {
            let tag: u8 = match f.mode {
                PreviewMode::Remove => 1,
                PreviewMode::Paint => 2,
                PreviewMode::Select => 3,
                _ => 0,
            };
            let color: u32 = if f.mode == PreviewMode::Select {
                0
            } else {
                h.color
            };
            hash_single_cell_preview(
                f.mode,
                (c.0).0,
                (c.0).1,
                (c.0).2,
                tag,
                f.debug_overlay,
                color,
                c.1,
            )
        },
        None => hash_preview_miss(f.mode, f.debug_overlay),
    }
}

/// What decides the preview of a stroke, besides its cells.
pub open spec fn stroke_hover(h: PreviewHoverContext) -> BrushHover {
    BrushHover {
        use_brush_preview: h.use_brush_preview,
        brush_radius: h.brush_radius,
        brush_shape: h.brush_shape,
        spray_density: h.spray_density,
        stroke_mode: h.stroke_mode.number,
        plane_axis: h.plane_axis,
        color: h.color,
        material: h.material,
        match_material: h.match_material,
        stroke_aux: h.stroke_aux.text,
    }
}

fn make_stroke_hover(h: &PreviewHoverContext) -> (r: BrushHover)
    ensures
        r == stroke_hover(*h),
{
    BrushHover {
        use_brush_preview: h.use_brush_preview,
        brush_radius: h.brush_radius,
        brush_shape: h.brush_shape,
        spray_density: h.spray_density,
        stroke_mode: h.stroke_mode.number,
        plane_axis: h.plane_axis,
        color: h.color,
        material: h.material.clone(),
        match_material: h.match_material,
        stroke_aux: match &h.stroke_aux.text {
            Some(s) => Some(s.clone()),
            None => None,
        },
    }
}

/// A key that a stroke can have which reaches the given cells.
pub open spec fn stroke_key_of(
    f: PreviewFacts,
    h: PreviewHoverContext,
    targets: Seq<VoxelCoord>,
    map: Map<VoxelCoord, usize>,
    key: u64,
) -> bool {
    exists|sorted: Seq<VoxelCoord>| #[trigger]
        cells_sorted(sorted) && sorted.to_multiset() == targets.to_multiset() && possible_key(
            brush_key(f.mode, stroke_hover(h), sorted, map, f.debug_overlay),
            key,
        )
}

/// Cache key of the preview of a stroke.
pub fn stroke_key(
    f: &PreviewFacts,
    h: &PreviewHoverContext,
    targets: &Vec<VoxelCoord>,
    voxel_map: &CoordMap,
) -> (r: u64)
    ensures
        stroke_key_of(*f, *h, targets@, entries(*voxel_map), r),
{
    hash_brush_hover_targets(f.mode, &make_stroke_hover(h), targets, voxel_map, f.debug_overlay)
}

/// Words of the key of the preview of a skeleton session.
pub open spec fn skeleton_words(
    f: PreviewFacts,
    h: PreviewHoverContext,
    session: BoneSession,
) -> Seq<KeyWord> {
    let at = skeleton_spot(f);
    bone_key(session, at.0, at.1, f.bone_gizmo_drag, f.debug_overlay, h.color)
}

/// Cache key of the preview of a skeleton session.
pub fn skeleton_key(f: &PreviewFacts, h: &PreviewHoverContext, session: &BoneSession) -> (r: u64)
    ensures
        possible_key(skeleton_words(*f, *h, *session), r),
{
    let at: (u32, u32) = match f.cursor {
        Some(p) => p,
        None => (MINUS_ONE, MINUS_ONE),
    };
    hash_bone_preview(session, at.0, at.1, f.bone_gizmo_drag, f.debug_overlay, h.color)
}

/// Words of the key of the preview of a metaball session.
pub open spec fn metaball_words(
    f: PreviewFacts,
    h: PreviewHoverContext,
    session: SquishySession,
    anchor: Option<VoxelCoord>,
    ball: Option<u32>,
) -> Seq<KeyWord> {
    let at = pointer_spot(f);
    squishy_key(
        session,
        at.0,
        at.1,
        anchor,
        f.squishy_gizmo_drag,
        ball,
        f.debug_overlay,
        h.color,
    )
}

/// Cache key of the preview of a metaball session with the cell that a click adds at,
/// and the ball that it takes away.
pub fn metaball_key(
    f: &PreviewFacts,
    h: &PreviewHoverContext,
    session: &SquishySession,
    anchor: Option<VoxelCoord>,
    ball: Option<u32>,
) -> (r: u64)
    ensures
        possible_key(metaball_words(*f, *h, *session, anchor, ball), r),
{
    let at = spot_of_pointer(f);
    hash_squishy_preview(
        session,
        at.0,
        at.1,
        anchor,
        f.squishy_gizmo_drag,
        ball,
        f.debug_overlay,
        h.color,
    )
}

/// Words of the key of the preview of a stamp or punch.
pub open spec fn clipboard_words(
    f: PreviewFacts,
    h: PreviewHoverContext,
    anchor: Option<VoxelCoord>,
    clip: Seq<ClipEntry>,
) -> Seq<KeyWord> {
    stamp_key(f.mode, anchor, clip, h.stamp_origin_x, h.stamp_origin_z, f.debug_overlay)
}

/// Cache key of the preview of a stamp or punch.
pub fn clipboard_key(
    f: &PreviewFacts,
    h: &PreviewHoverContext,
    anchor: Option<VoxelCoord>,
    clip: &Vec<ClipEntry>,
) -> (r: u64)
    ensures
        possible_key(clipboard_words(*f, *h, anchor, clip@), r),
{
    hash_stamp_preview(f.mode, anchor, clip, h.stamp_origin_x, h.stamp_origin_z, f.debug_overlay)
}

} // verus!
