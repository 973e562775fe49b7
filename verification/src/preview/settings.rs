//! What the user has set for the hover preview, and what else it depends on.

use vstd::prelude::*;

use crate::preview::mode::{BrushShape, PreviewMode};
use crate::voxelle::VoxelCoord;

verus! {

/// How a stroke reaches its cells: the number of the mode, and whether it spans a polygon.
#[derive(Clone, Copy, Debug, PartialEq, Eq, Structural)]
pub struct StrokeMode {
    pub number: u8,
    pub polygon: bool,
}

/// Further state of a stroke: the corners of its polygon, and all of it as text, if
/// it can be written.
#[derive(Debug)]
pub struct StrokeAux {
    pub polygon_vertices: Vec<VoxelCoord>,
    pub text: Option<String>,
}

/// The settings of the preview. Fractions are given by their bit patterns, the axis
/// of the working plane by its number, the distribution of colours as text.
#[derive(Debug)]
pub struct PreviewHoverContext {
    pub brush_radius: u32,
    pub brush_shape: BrushShape,
    pub spray_density: u32,
    pub stroke_mode: StrokeMode,
    pub plane_axis: u8,
    pub stroke_aux: StrokeAux,
    pub color: u32,
    pub palette: Vec<u32>,
    pub paint_color_distrib: Option<String>,
    pub material: String,
    pub match_material: bool,
    pub use_brush_preview: bool,
    pub generator_kind: Option<String>,
    pub generator_rope_first_voxel: Option<VoxelCoord>,
    pub generator_rope_sag: u32,
    pub generator_rope_tension: u32,
    pub generator_rope_gravity_direction: String,
    pub generator_cloth_pins: Vec<VoxelCoord>,
    pub generator_cloth_tension: u32,
    pub generator_cloth_gravity_direction: String,
    pub generator_cloth_gravity_scale: u64,
    pub generator_cloth_stiffness_scale: u64,
    pub generator_cloth_iterations: u32,
    pub generator_cloth_constraint_passes: u32,
    pub generator_rock_size: i32,
    pub generator_rock_roughness: u32,
    pub generator_rock_seed: i32,
    pub generator_rock_count: i32,
    pub generator_rock_cluster_radius: i32,
    pub generator_rock_sink_direction: i32,
    pub generator_rock_sink_amount: i32,
    pub generator_grass_radius: i32,
    pub generator_grass_density: u32,
    pub generator_grass_max_height: i32,
    pub generator_grass_seed: i32,
    pub generator_roof_pins: Vec<VoxelCoord>,
    pub generator_roof_style: String,
    pub generator_roof_height: i32,
    pub generator_roof_thickness: i32,
    pub generator_roof_break_ratio: u32,
    pub generator_roof_wall_height: i32,
    pub generator_roof_parapet_height: i32,
    pub generator_roof_salt_skew: u32,
    pub generator_roof_hollow: bool,
    pub generator_ashlar_size: i32,
    pub generator_ashlar_roughness: u32,
    pub generator_ashlar_seed: i32,
    pub generator_ashlar_thickness: i32,
    pub generator_flora_seed: i32,
    pub generator_flora_height: i32,
    pub generator_flora_girth: i32,
    pub generator_flora_wobble: u32,
    pub generator_flora_taper: u32,
    pub generator_flora_stem_count: i32,
    pub generator_flora_cluster_radius: i32,
    pub generator_flora_branch_count: i32,
    pub generator_flora_branch_depth: i32,
    pub generator_flora_branch_start: u32,
    pub generator_flora_branch_spread: u32,
    pub generator_flora_braid_strands: i32,
    pub generator_flora_braid_twist: u32,
    pub generator_flora_canopy: u32,
    pub generator_insecta_species: String,
    pub generator_insecta_total_length: i32,
    pub generator_insecta_head_ratio: u32,
    pub generator_insecta_thorax_ratio: u32,
    pub generator_insecta_abdomen_ratio: u32,
    pub generator_insecta_body_half_width: i32,
    pub generator_insecta_body_half_height: i32,
    pub generator_insecta_abdomen_taper: u32,
    pub generator_insecta_head_shape: i32,
    pub generator_insecta_anchor_offset_u: i32,
    pub generator_insecta_anchor_offset_v: i32,
    pub generator_insecta_body_yaw: u32,
    pub generator_insecta_body_arch: u32,
    pub generator_insecta_antenna_length: i32,
    pub generator_insecta_antenna_spread: u32,
    pub generator_insecta_antenna_pitch: u32,
    pub generator_insecta_antenna_root: i32,
    pub generator_insecta_mandible_length: i32,
    pub generator_insecta_mandible_spread: u32,
    pub generator_insecta_mandible_forward: i32,
    pub generator_insecta_wing_shape: i32,
    pub generator_insecta_show_wing_fore: bool,
    pub generator_insecta_wing_fore_length: i32,
    pub generator_insecta_wing_fore_width: i32,
    pub generator_insecta_wing_fore_spread: u32,
    pub generator_insecta_wing_fore_pitch: u32,
    pub generator_insecta_wing_fore_offset: i32,
    pub generator_insecta_wing_fore_forward_cant: u32,
    pub generator_insecta_show_wing_hind: bool,
    pub generator_insecta_wing_hind_length: i32,
    pub generator_insecta_wing_hind_width: i32,
    pub generator_insecta_wing_hind_spread: u32,
    pub generator_insecta_wing_hind_pitch: u32,
    pub generator_insecta_wing_hind_offset: i32,
    pub generator_fauna_stance: String,
    pub generator_fauna_archetype: String,
    pub generator_fauna_anchor_offset_u: i32,
    pub generator_fauna_anchor_offset_v: i32,
    pub generator_fauna_body_yaw: u32,
    pub generator_fauna_body_arch: u32,
    pub generator_fauna_spine_segments: i32,
    pub generator_fauna_body_length: i32,
    pub generator_fauna_body_half_width: i32,
    pub generator_fauna_body_half_height: i32,
    pub generator_fauna_neck_length: i32,
    pub generator_fauna_neck_half_width: i32,
    pub generator_fauna_neck_half_height: i32,
    pub generator_fauna_head_length: i32,
    pub generator_fauna_head_half_width: i32,
    pub generator_fauna_head_half_height: i32,
    pub generator_fauna_tail_length: i32,
    pub generator_fauna_shoulder_offset_forward: i32,
    pub generator_fauna_hip_offset_forward: i32,
    pub generator_fauna_front_upper_length: i32,
    pub generator_fauna_front_lower_length: i32,
    pub generator_fauna_hind_upper_length: i32,
    pub generator_fauna_hind_lower_length: i32,
    pub generator_fauna_auto_foot_placement: bool,
    pub generator_piscina_seed: i32,
    pub generator_piscina_species: String,
    pub generator_piscina_length: i32,
    pub generator_piscina_width: i32,
    pub generator_piscina_thickness: i32,
    pub generator_piscina_spine_bend: u32,
    pub generator_piscina_spine_s_curve: u32,
    pub generator_piscina_fin_dorsal: i32,
    pub generator_piscina_fin_anal: i32,
    pub generator_piscina_fin_caudal: i32,
    pub generator_piscina_fin_pectoral: i32,
    pub generator_piscina_fin_pelvic: i32,
    pub generator_piscina_fin_adipose: i32,
    pub generator_piscina_show_fin_dorsal: bool,
    pub generator_piscina_show_fin_anal: bool,
    pub generator_piscina_show_fin_caudal: bool,
    pub generator_piscina_show_fin_pectoral: bool,
    pub generator_piscina_show_fin_pelvic: bool,
    pub generator_piscina_show_fin_adipose: bool,
    pub generator_piscina_anchor_offset_u: i32,
    pub generator_piscina_anchor_offset_v: i32,
    pub stamp_origin_x: i32,
    pub stamp_origin_z: i32,
    /// Bits for the axes along which cells are mirrored.
    pub mirror_axes: u8,
    pub generator_shape_kind: String,
    pub generator_shape_size: i32,
    pub generator_shape_rot_x: u32,
    pub generator_shape_rot_y: u32,
    pub generator_shape_rot_z: u32,
    pub generator_shape_overwrite: bool,
}

/// The pointer, the mode and the settings, as the user interface sends them. The
/// pointer is given by bit patterns; below zero it is outside the viewport.
#[derive(Debug)]
pub struct SyncPreviewInput {
    pub nx: u32,
    pub ny: u32,
    pub mode: PreviewMode,
    pub hover: PreviewHoverContext,
}

/// What the preview depends on besides the settings.
#[derive(Clone, Copy, Debug)]
pub struct PreviewFacts {
    /// A stroke is under way that shows itself.
    pub suppressed: bool,
    pub mode: PreviewMode,
    /// Texel under the pointer, by bit patterns; `None` outside the viewport.
    pub cursor: Option<(u32, u32)>,
    /// A model and its cell map are open.
    pub model: bool,
    /// Cell of the gizmo that a shape is placed with, a drag under way counted in.
    pub gizmo_origin: Option<VoxelCoord>,
    pub bone_gizmo_drag: bool,
    pub squishy_gizmo_drag: bool,
    /// Cells of the clipboard.
    pub clipboard: Option<usize>,
    pub debug_overlay: bool,
    /// Counts how often the model was meshed.
    pub mesh_generation: u64,
}

} // verus!
