//! Cache keys of the previews of generators.

use vstd::prelude::*;

use crate::preview::keys::{
    hash_words, pin_words, possible_key, push_pins, push_text, push_words, text_words, KeyWord,
};
use crate::preview::mode::{brush_shape_tag, shape_number, BrushShape};
use crate::voxelle::VoxelCoord;

verus! {

/// What decides the preview of a rope from its first voxel to the pointer. Fractions
/// are given by their bit patterns.
#[derive(Debug)]
pub struct RopeHover {
    pub h1: VoxelCoord,
    pub sx2: u32,
    pub sy2: u32,
    pub tension: u32,
    pub gravity_dir: String,
    pub brush_radius: u32,
    pub brush_shape: BrushShape,
    pub color: u32,
    pub dbg: bool,
    pub mesh_gen: u64,
}

impl RopeHover {
    /// The words of the key, in order.
    pub open spec fn key(&self) -> Seq<KeyWord> {
        seq![
            KeyWord::Byte(0x52),
            KeyWord::Int(self.h1.0),
            KeyWord::Int(self.h1.1),
            KeyWord::Int(self.h1.2),
            KeyWord::Word(self.sx2),
            KeyWord::Word(self.sy2),
            KeyWord::Word(self.tension),
        ] + text_words(self.gravity_dir@) + seq![
            KeyWord::Word(self.brush_radius),
            KeyWord::Byte(shape_number(self.brush_shape)),
            KeyWord::Word(self.color),
            KeyWord::Flag(self.dbg),
            KeyWord::Long(self.mesh_gen),
        ]
    }

    /// The words of the key, in order.
    pub fn words(&self) -> (words: Vec<KeyWord>)
        ensures
            words@ == self.key(),
    {
        let mut words: Vec<KeyWord> = Vec::new();
        push_words(
            &mut words,
            &vec![
                KeyWord::Byte(0x52),
                KeyWord::Int(self.h1.0),
                KeyWord::Int(self.h1.1),
                KeyWord::Int(self.h1.2),
                KeyWord::Word(self.sx2),
                KeyWord::Word(self.sy2),
                KeyWord::Word(self.tension),
            ],
        );
        push_text(&mut words, self.gravity_dir.as_str());
        push_words(
            &mut words,
            &vec![
                KeyWord::Word(self.brush_radius),
                KeyWord::Byte(brush_shape_tag(self.brush_shape)),
                KeyWord::Word(self.color),
                KeyWord::Flag(self.dbg),
                KeyWord::Long(self.mesh_gen),
            ],
        );
        assert(words@ =~= self.key());
        words
    }
}

/// Cache key of the preview of a rope from its first voxel to the pointer.
pub fn hash_generator_rope_hover(hover: &RopeHover) -> (r: u64)
    ensures
        possible_key(hover.key(), r),
{
    hash_words(&hover.words())
}

/// What decides the preview of a cloth between its pins. Fractions are given by their bit patterns.
#[derive(Debug)]
pub struct ClothHover {
    pub pins: Vec<VoxelCoord>,
    pub tension: u32,
    pub gravity_dir: String,
    pub gravity_scale: u64,
    pub stiffness_scale: u64,
    pub iterations: u32,
    pub passes: u32,
    pub brush_radius: u32,
    pub brush_shape: BrushShape,
    pub color: u32,
    pub dbg: bool,
    pub mesh_gen: u64,
}

impl ClothHover {
    /// The words of the key, in order.
    pub open spec fn key(&self) -> Seq<KeyWord> {
        seq![
            KeyWord::Byte(0x43),
            KeyWord::Count(self.pins@.len() as usize),
        ] + pin_words(self.pins@) + seq![
            KeyWord::Word(self.tension),
        ] + text_words(self.gravity_dir@) + seq![
            KeyWord::Long(self.gravity_scale),
            KeyWord::Long(self.stiffness_scale),
            KeyWord::Word(self.iterations),
            KeyWord::Word(self.passes),
            KeyWord::Word(self.brush_radius),
            KeyWord::Byte(shape_number(self.brush_shape)),
            KeyWord::Word(self.color),
            KeyWord::Flag(self.dbg),
            KeyWord::Long(self.mesh_gen),
        ]
    }

    /// The words of the key, in order.
    pub fn words(&self) -> (words: Vec<KeyWord>)
        ensures
            words@ == self.key(),
    {
        let mut words: Vec<KeyWord> = Vec::new();
        push_words(
            &mut words,
            &vec![
                KeyWord::Byte(0x43),
                KeyWord::Count(self.pins.len()),
            ],
        );
        push_pins(&mut words, &self.pins);
        push_words(
            &mut words,
            &vec![
                KeyWord::Word(self.tension),
            ],
        );
        push_text(&mut words, self.gravity_dir.as_str());
        push_words(
            &mut words,
            &vec![
                KeyWord::Long(self.gravity_scale),
                KeyWord::Long(self.stiffness_scale),
                KeyWord::Word(self.iterations),
                KeyWord::Word(self.passes),
                KeyWord::Word(self.brush_radius),
                KeyWord::Byte(brush_shape_tag(self.brush_shape)),
                KeyWord::Word(self.color),
                KeyWord::Flag(self.dbg),
                KeyWord::Long(self.mesh_gen),
            ],
        );
        assert(words@ =~= self.key());
        words
    }
}

/// Cache key of the preview of a cloth between its pins.
pub fn hash_generator_cloth_hover(hover: &ClothHover) -> (r: u64)
    ensures
        possible_key(hover.key(), r),
{
    hash_words(&hover.words())
}

/// What decides the preview of rocks at the pointer. Fractions are given by their bit patterns.
#[derive(Debug)]
pub struct RockHover {
    pub sx: u32,
    pub sy: u32,
    pub size: i32,
    pub roughness: u32,
    pub seed: i32,
    pub color: u32,
    pub dbg: bool,
    pub mesh_gen: u64,
    pub count: i32,
    pub cluster_radius: i32,
    pub sink_direction: i32,
    pub sink_amount: i32,
}

impl RockHover {
    /// The words of the key, in order.
    pub open spec fn key(&self) -> Seq<KeyWord> {
        seq![
            KeyWord::Byte(0x72),
            KeyWord::Word(self.sx),
            KeyWord::Word(self.sy),
            KeyWord::Int(self.size),
            KeyWord::Word(self.roughness),
            KeyWord::Int(self.seed),
            KeyWord::Word(self.color),
            KeyWord::Flag(self.dbg),
            KeyWord::Long(self.mesh_gen),
            KeyWord::Int(self.count),
            KeyWord::Int(self.cluster_radius),
            KeyWord::Int(self.sink_direction),
            KeyWord::Int(self.sink_amount),
        ]
    }

    /// The words of the key, in order.
    pub fn words(&self) -> (words: Vec<KeyWord>)
        ensures
            words@ == self.key(),
    {
        let mut words: Vec<KeyWord> = Vec::new();
        push_words(
            &mut words,
            &vec![
                KeyWord::Byte(0x72),
                KeyWord::Word(self.sx),
                KeyWord::Word(self.sy),
                KeyWord::Int(self.size),
                KeyWord::Word(self.roughness),
                KeyWord::Int(self.seed),
                KeyWord::Word(self.color),
                KeyWord::Flag(self.dbg),
                KeyWord::Long(self.mesh_gen),
                KeyWord::Int(self.count),
                KeyWord::Int(self.cluster_radius),
                KeyWord::Int(self.sink_direction),
                KeyWord::Int(self.sink_amount),
            ],
        );
        assert(words@ =~= self.key());
        words
    }
}

/// Cache key of the preview of rocks at the pointer.
pub fn hash_generator_rock_hover(hover: &RockHover) -> (r: u64)
    ensures
        possible_key(hover.key(), r),
{
    hash_words(&hover.words())
}

/// What decides the preview of a solid shape. Fractions are given by their bit patterns.
#[derive(Debug)]
pub struct ShapeHover {
    pub sx: u32,
    pub sy: u32,
    pub shape_kind: String,
    pub size: i32,
    pub rot_x: u32,
    pub rot_y: u32,
    pub rot_z: u32,
    pub overwrite: bool,
    pub color: u32,
    pub dbg: bool,
    pub mesh_gen: u64,
}

impl ShapeHover {
    /// The words of the key, in order.
    pub open spec fn key(&self) -> Seq<KeyWord> {
        seq![
            KeyWord::Byte(0x73),
            KeyWord::Word(self.sx),
            KeyWord::Word(self.sy),
        ] + text_words(self.shape_kind@) + seq![
            KeyWord::Int(self.size),
            KeyWord::Word(self.rot_x),
            KeyWord::Word(self.rot_y),
            KeyWord::Word(self.rot_z),
            KeyWord::Flag(self.overwrite),
            KeyWord::Word(self.color),
            KeyWord::Flag(self.dbg),
            KeyWord::Long(self.mesh_gen),
        ]
    }

    /// The words of the key, in order.
    pub fn words(&self) -> (words: Vec<KeyWord>)
        ensures
            words@ == self.key(),
    {
        let mut words: Vec<KeyWord> = Vec::new();
        push_words(
            &mut words,
            &vec![
                KeyWord::Byte(0x73),
                KeyWord::Word(self.sx),
                KeyWord::Word(self.sy),
            ],
        );
        push_text(&mut words, self.shape_kind.as_str());
        push_words(
            &mut words,
            &vec![
                KeyWord::Int(self.size),
                KeyWord::Word(self.rot_x),
                KeyWord::Word(self.rot_y),
                KeyWord::Word(self.rot_z),
                KeyWord::Flag(self.overwrite),
                KeyWord::Word(self.color),
                KeyWord::Flag(self.dbg),
                KeyWord::Long(self.mesh_gen),
            ],
        );
        assert(words@ =~= self.key());
        words
    }
}

/// Cache key of the preview of a solid shape.
pub fn hash_generator_shape_hover(hover: &ShapeHover) -> (r: u64)
    ensures
        possible_key(hover.key(), r),
{
    hash_words(&hover.words())
}

/// What decides the preview of grass at the pointer. Fractions are given by their bit patterns.
#[derive(Debug)]
pub struct GrassHover {
    pub sx: u32,
    pub sy: u32,
    pub radius: i32,
    pub density: u32,
    pub max_height: i32,
    pub seed: i32,
    pub color: u32,
    pub dbg: bool,
    pub mesh_gen: u64,
}

impl GrassHover {
    /// The words of the key, in order.
    pub open spec fn key(&self) -> Seq<KeyWord> {
        seq![
            KeyWord::Byte(0x67),
            KeyWord::Word(self.sx),
            KeyWord::Word(self.sy),
            KeyWord::Int(self.radius),
            KeyWord::Word(self.density),
            KeyWord::Int(self.max_height),
            KeyWord::Int(self.seed),
            KeyWord::Word(self.color),
            KeyWord::Flag(self.dbg),
            KeyWord::Long(self.mesh_gen),
        ]
    }

    /// The words of the key, in order.
    pub fn words(&self) -> (words: Vec<KeyWord>)
        ensures
            words@ == self.key(),
    {
        let mut words: Vec<KeyWord> = Vec::new();
        push_words(
            &mut words,
            &vec![
                KeyWord::Byte(0x67),
                KeyWord::Word(self.sx),
                KeyWord::Word(self.sy),
                KeyWord::Int(self.radius),
                KeyWord::Word(self.density),
                KeyWord::Int(self.max_height),
                KeyWord::Int(self.seed),
                KeyWord::Word(self.color),
                KeyWord::Flag(self.dbg),
                KeyWord::Long(self.mesh_gen),
            ],
        );
        assert(words@ =~= self.key());
        words
    }
}

/// Cache key of the preview of grass at the pointer.
pub fn hash_generator_grass_hover(hover: &GrassHover) -> (r: u64)
    ensures
        possible_key(hover.key(), r),
{
    hash_words(&hover.words())
}

/// What decides the preview of an ashlar block at the pointer. Fractions are given by
/// their bit patterns.
#[derive(Debug)]
pub struct AshlarHover {
    pub sx: u32,
    pub sy: u32,
    pub size: i32,
    pub roughness: u32,
    pub seed: i32,
    pub thickness: i32,
    pub color: u32,
    pub dbg: bool,
    pub mesh_gen: u64,
}

impl AshlarHover {
    /// The words of the key, in order.
    pub open spec fn key(&self) -> Seq<KeyWord> {
        seq![
            KeyWord::Byte(0x61),
            KeyWord::Word(self.sx),
            KeyWord::Word(self.sy),
            KeyWord::Int(self.size),
            KeyWord::Word(self.roughness),
            KeyWord::Int(self.seed),
            KeyWord::Int(self.thickness),
            KeyWord::Word(self.color),
            KeyWord::Flag(self.dbg),
            KeyWord::Long(self.mesh_gen),
        ]
    }

    /// The words of the key, in order.
    pub fn words(&self) -> (words: Vec<KeyWord>)
        ensures
            words@ == self.key(),
    {
        let mut words: Vec<KeyWord> = Vec::new();
        push_words(
            &mut words,
            &vec![
                KeyWord::Byte(0x61),
                KeyWord::Word(self.sx),
                KeyWord::Word(self.sy),
                KeyWord::Int(self.size),
                KeyWord::Word(self.roughness),
                KeyWord::Int(self.seed),
                KeyWord::Int(self.thickness),
                KeyWord::Word(self.color),
                KeyWord::Flag(self.dbg),
                KeyWord::Long(self.mesh_gen),
            ],
        );
        assert(words@ =~= self.key());
        words
    }
}

/// Cache key of the preview of an ashlar block at the pointer.
pub fn hash_generator_ashlar_hover(hover: &AshlarHover) -> (r: u64)
    ensures
        possible_key(hover.key(), r),
{
    hash_words(&hover.words())
}

/// What decides the preview of a plant at the pointer. Fractions are given by their bit patterns.
#[derive(Debug)]
pub struct FloraHover {
    pub sx: u32,
    pub sy: u32,
    pub seed: i32,
    pub height: i32,
    pub girth: i32,
    pub wobble: u32,
    pub taper: u32,
    pub stem_count: i32,
    pub cluster_radius: i32,
    pub branch_count: i32,
    pub branch_depth: i32,
    pub branch_start: u32,
    pub branch_spread: u32,
    pub braid_strands: i32,
    pub braid_twist: u32,
    pub canopy: u32,
    pub color: u32,
    pub dbg: bool,
    pub mesh_gen: u64,
}

impl FloraHover {
    /// The words of the key, in order.
    pub open spec fn key(&self) -> Seq<KeyWord> {
        seq![
            KeyWord::Byte(0x46),
            KeyWord::Word(self.sx),
            KeyWord::Word(self.sy),
            KeyWord::Int(self.seed),
            KeyWord::Int(self.height),
            KeyWord::Int(self.girth),
            KeyWord::Word(self.wobble),
            KeyWord::Word(self.taper),
            KeyWord::Int(self.stem_count),
            KeyWord::Int(self.cluster_radius),
            KeyWord::Int(self.branch_count),
            KeyWord::Int(self.branch_depth),
            KeyWord::Word(self.branch_start),
            KeyWord::Word(self.branch_spread),
            KeyWord::Int(self.braid_strands),
            KeyWord::Word(self.braid_twist),
            KeyWord::Word(self.canopy),
            KeyWord::Word(self.color),
            KeyWord::Flag(self.dbg),
            KeyWord::Long(self.mesh_gen),
        ]
    }

    /// The words of the key, in order.
    pub fn words(&self) -> (words: Vec<KeyWord>)
        ensures
            words@ == self.key(),
    {
        let mut words: Vec<KeyWord> = Vec::new();
        push_words(
            &mut words,
            &vec![
                KeyWord::Byte(0x46),
                KeyWord::Word(self.sx),
                KeyWord::Word(self.sy),
                KeyWord::Int(self.seed),
                KeyWord::Int(self.height),
                KeyWord::Int(self.girth),
                KeyWord::Word(self.wobble),
                KeyWord::Word(self.taper),
                KeyWord::Int(self.stem_count),
                KeyWord::Int(self.cluster_radius),
                KeyWord::Int(self.branch_count),
                KeyWord::Int(self.branch_depth),
                KeyWord::Word(self.branch_start),
                KeyWord::Word(self.branch_spread),
                KeyWord::Int(self.braid_strands),
                KeyWord::Word(self.braid_twist),
                KeyWord::Word(self.canopy),
                KeyWord::Word(self.color),
                KeyWord::Flag(self.dbg),
                KeyWord::Long(self.mesh_gen),
            ],
        );
        assert(words@ =~= self.key());
        words
    }
}

/// Cache key of the preview of a plant at the pointer.
pub fn hash_generator_flora_hover(hover: &FloraHover) -> (r: u64)
    ensures
        possible_key(hover.key(), r),
{
    hash_words(&hover.words())
}

/// What decides the preview of an insect at the pointer. Fractions are given by their bit patterns.
#[derive(Debug)]
pub struct InsectaHover {
    pub sx: u32,
    pub sy: u32,
    pub species: String,
    pub total_length: i32,
    pub head_ratio: u32,
    pub thorax_ratio: u32,
    pub abdomen_ratio: u32,
    pub body_half_width: i32,
    pub body_half_height: i32,
    pub abdomen_taper: u32,
    pub head_shape: i32,
    pub anchor_offset_u: i32,
    pub anchor_offset_v: i32,
    pub body_yaw: u32,
    pub body_arch: u32,
    pub antenna_length: i32,
    pub antenna_spread: u32,
    pub antenna_pitch: u32,
    pub antenna_root: i32,
    pub mandible_length: i32,
    pub mandible_spread: u32,
    pub mandible_forward: i32,
    pub wing_shape: i32,
    pub show_wing_fore: bool,
    pub wing_fore_length: i32,
    pub wing_fore_width: i32,
    pub wing_fore_spread: u32,
    pub wing_fore_pitch: u32,
    pub wing_fore_offset: i32,
    pub wing_fore_forward_cant: u32,
    pub show_wing_hind: bool,
    pub wing_hind_length: i32,
    pub wing_hind_width: i32,
    pub wing_hind_spread: u32,
    pub wing_hind_pitch: u32,
    pub wing_hind_offset: i32,
    pub color: u32,
    pub dbg: bool,
    pub mesh_gen: u64,
}

impl InsectaHover {
    /// The words of the key, in order.
    pub open spec fn key(&self) -> Seq<KeyWord> {
        seq![
            KeyWord::Byte(0x49),
            KeyWord::Word(self.sx),
            KeyWord::Word(self.sy),
        ] + text_words(self.species@) + seq![
            KeyWord::Int(self.total_length),
            KeyWord::Word(self.head_ratio),
            KeyWord::Word(self.thorax_ratio),
            KeyWord::Word(self.abdomen_ratio),
            KeyWord::Int(self.body_half_width),
            KeyWord::Int(self.body_half_height),
            KeyWord::Word(self.abdomen_taper),
            KeyWord::Int(self.head_shape),
            KeyWord::Int(self.anchor_offset_u),
            KeyWord::Int(self.anchor_offset_v),
            KeyWord::Word(self.body_yaw),
            KeyWord::Word(self.body_arch),
            KeyWord::Int(self.antenna_length),
            KeyWord::Word(self.antenna_spread),
            KeyWord::Word(self.antenna_pitch),
            KeyWord::Int(self.antenna_root),
            KeyWord::Int(self.mandible_length),
            KeyWord::Word(self.mandible_spread),
            KeyWord::Int(self.mandible_forward),
            KeyWord::Int(self.wing_shape),
            KeyWord::Flag(self.show_wing_fore),
            KeyWord::Int(self.wing_fore_length),
            KeyWord::Int(self.wing_fore_width),
            KeyWord::Word(self.wing_fore_spread),
            KeyWord::Word(self.wing_fore_pitch),
            KeyWord::Int(self.wing_fore_offset),
            KeyWord::Word(self.wing_fore_forward_cant),
            KeyWord::Flag(self.show_wing_hind),
            KeyWord::Int(self.wing_hind_length),
            KeyWord::Int(self.wing_hind_width),
            KeyWord::Word(self.wing_hind_spread),
            KeyWord::Word(self.wing_hind_pitch),
            KeyWord::Int(self.wing_hind_offset),
            KeyWord::Word(self.color),
            KeyWord::Flag(self.dbg),
            KeyWord::Long(self.mesh_gen),
        ]
    }

    /// The words of the key, in order.
    pub fn words(&self) -> (words: Vec<KeyWord>)
        ensures
            words@ == self.key(),
    {
        let mut words: Vec<KeyWord> = Vec::new();
        push_words(
            &mut words,
            &vec![
                KeyWord::Byte(0x49),
                KeyWord::Word(self.sx),
                KeyWord::Word(self.sy),
            ],
        );
        push_text(&mut words, self.species.as_str());
        push_words(
            &mut words,
            &vec![
                KeyWord::Int(self.total_length),
                KeyWord::Word(self.head_ratio),
                KeyWord::Word(self.thorax_ratio),
                KeyWord::Word(self.abdomen_ratio),
                KeyWord::Int(self.body_half_width),
                KeyWord::Int(self.body_half_height),
                KeyWord::Word(self.abdomen_taper),
                KeyWord::Int(self.head_shape),
                KeyWord::Int(self.anchor_offset_u),
                KeyWord::Int(self.anchor_offset_v),
                KeyWord::Word(self.body_yaw),
                KeyWord::Word(self.body_arch),
                KeyWord::Int(self.antenna_length),
                KeyWord::Word(self.antenna_spread),
                KeyWord::Word(self.antenna_pitch),
                KeyWord::Int(self.antenna_root),
                KeyWord::Int(self.mandible_length),
                KeyWord::Word(self.mandible_spread),
                KeyWord::Int(self.mandible_forward),
                KeyWord::Int(self.wing_shape),
                KeyWord::Flag(self.show_wing_fore),
                KeyWord::Int(self.wing_fore_length),
                KeyWord::Int(self.wing_fore_width),
                KeyWord::Word(self.wing_fore_spread),
                KeyWord::Word(self.wing_fore_pitch),
                KeyWord::Int(self.wing_fore_offset),
                KeyWord::Word(self.wing_fore_forward_cant),
                KeyWord::Flag(self.show_wing_hind),
                KeyWord::Int(self.wing_hind_length),
                KeyWord::Int(self.wing_hind_width),
                KeyWord::Word(self.wing_hind_spread),
                KeyWord::Word(self.wing_hind_pitch),
                KeyWord::Int(self.wing_hind_offset),
                KeyWord::Word(self.color),
                KeyWord::Flag(self.dbg),
                KeyWord::Long(self.mesh_gen),
            ],
        );
        assert(words@ =~= self.key());
        words
    }
}

/// Cache key of the preview of an insect at the pointer.
pub fn hash_generator_insecta_hover(hover: &InsectaHover) -> (r: u64)
    ensures
        possible_key(hover.key(), r),
{
    hash_words(&hover.words())
}

/// What decides the preview of an animal at the pointer. Fractions are given by their bit patterns.
#[derive(Debug)]
pub struct FaunaHover {
    pub sx: u32,
    pub sy: u32,
    pub stance: String,
    pub archetype: String,
    pub anchor_offset_u: i32,
    pub anchor_offset_v: i32,
    pub body_yaw: u32,
    pub body_arch: u32,
    pub spine_segments: i32,
    pub body_length: i32,
    pub body_half_width: i32,
    pub body_half_height: i32,
    pub neck_length: i32,
    pub neck_half_width: i32,
    pub neck_half_height: i32,
    pub head_length: i32,
    pub head_half_width: i32,
    pub head_half_height: i32,
    pub tail_length: i32,
    pub shoulder_offset_forward: i32,
    pub hip_offset_forward: i32,
    pub front_upper_length: i32,
    pub front_lower_length: i32,
    pub hind_upper_length: i32,
    pub hind_lower_length: i32,
    pub auto_foot_placement: bool,
    pub color: u32,
    pub dbg: bool,
    pub mesh_gen: u64,
}

impl FaunaHover {
    /// The words of the key, in order.
    pub open spec fn key(&self) -> Seq<KeyWord> {
        seq![
            KeyWord::Byte(0x41),
            KeyWord::Word(self.sx),
            KeyWord::Word(self.sy),
        ] + text_words(self.stance@) + text_words(self.archetype@) + seq![
            KeyWord::Int(self.anchor_offset_u),
            KeyWord::Int(self.anchor_offset_v),
            KeyWord::Word(self.body_yaw),
            KeyWord::Word(self.body_arch),
            KeyWord::Int(self.spine_segments),
            KeyWord::Int(self.body_length),
            KeyWord::Int(self.body_half_width),
            KeyWord::Int(self.body_half_height),
            KeyWord::Int(self.neck_length),
            KeyWord::Int(self.neck_half_width),
            KeyWord::Int(self.neck_half_height),
            KeyWord::Int(self.head_length),
            KeyWord::Int(self.head_half_width),
            KeyWord::Int(self.head_half_height),
            KeyWord::Int(self.tail_length),
            KeyWord::Int(self.shoulder_offset_forward),
            KeyWord::Int(self.hip_offset_forward),
            KeyWord::Int(self.front_upper_length),
            KeyWord::Int(self.front_lower_length),
            KeyWord::Int(self.hind_upper_length),
            KeyWord::Int(self.hind_lower_length),
            KeyWord::Flag(self.auto_foot_placement),
            KeyWord::Word(self.color),
            KeyWord::Flag(self.dbg),
            KeyWord::Long(self.mesh_gen),
        ]
    }

    /// The words of the key, in order.
    pub fn words(&self) -> (words: Vec<KeyWord>)
        ensures
            words@ == self.key(),
    {
        let mut words: Vec<KeyWord> = Vec::new();
        push_words(
            &mut words,
            &vec![
                KeyWord::Byte(0x41),
                KeyWord::Word(self.sx),
                KeyWord::Word(self.sy),
            ],
        );
        push_text(&mut words, self.stance.as_str());
        push_text(&mut words, self.archetype.as_str());
        push_words(
            &mut words,
            &vec![
                KeyWord::Int(self.anchor_offset_u),
                KeyWord::Int(self.anchor_offset_v),
                KeyWord::Word(self.body_yaw),
                KeyWord::Word(self.body_arch),
                KeyWord::Int(self.spine_segments),
                KeyWord::Int(self.body_length),
                KeyWord::Int(self.body_half_width),
                KeyWord::Int(self.body_half_height),
                KeyWord::Int(self.neck_length),
                KeyWord::Int(self.neck_half_width),
                KeyWord::Int(self.neck_half_height),
                KeyWord::Int(self.head_length),
                KeyWord::Int(self.head_half_width),
                KeyWord::Int(self.head_half_height),
                KeyWord::Int(self.tail_length),
                KeyWord::Int(self.shoulder_offset_forward),
                KeyWord::Int(self.hip_offset_forward),
                KeyWord::Int(self.front_upper_length),
                KeyWord::Int(self.front_lower_length),
                KeyWord::Int(self.hind_upper_length),
                KeyWord::Int(self.hind_lower_length),
                KeyWord::Flag(self.auto_foot_placement),
                KeyWord::Word(self.color),
                KeyWord::Flag(self.dbg),
                KeyWord::Long(self.mesh_gen),
            ],
        );
        assert(words@ =~= self.key());
        words
    }
}

/// Cache key of the preview of an animal at the pointer.
pub fn hash_generator_fauna_hover(hover: &FaunaHover) -> (r: u64)
    ensures
        possible_key(hover.key(), r),
{
    hash_words(&hover.words())
}

/// What decides the preview of a fish at the pointer. Fractions are given by their bit patterns.
#[derive(Debug)]
pub struct PiscinaHover {
    pub sx: u32,
    pub sy: u32,
    pub seed: i32,
    pub species: String,
    pub length: i32,
    pub width_param: i32,
    pub thickness: i32,
    pub spine_bend: u32,
    pub spine_s_curve: u32,
    pub fin_dorsal: i32,
    pub fin_anal: i32,
    pub fin_caudal: i32,
    pub fin_pectoral: i32,
    pub fin_pelvic: i32,
    pub fin_adipose: i32,
    pub show_fin_dorsal: bool,
    pub show_fin_anal: bool,
    pub show_fin_caudal: bool,
    pub show_fin_pectoral: bool,
    pub show_fin_pelvic: bool,
    pub show_fin_adipose: bool,
    pub anchor_offset_u: i32,
    pub anchor_offset_v: i32,
    pub color: u32,
    pub dbg: bool,
    pub mesh_gen: u64,
}

impl PiscinaHover {
    /// The words of the key, in order.
    pub open spec fn key(&self) -> Seq<KeyWord> {
        seq![
            KeyWord::Byte(0x50),
            KeyWord::Word(self.sx),
            KeyWord::Word(self.sy),
            KeyWord::Int(self.seed),
        ] + text_words(self.species@) + seq![
            KeyWord::Int(self.length),
            KeyWord::Int(self.width_param),
            KeyWord::Int(self.thickness),
            KeyWord::Word(self.spine_bend),
            KeyWord::Word(self.spine_s_curve),
            KeyWord::Int(self.fin_dorsal),
            KeyWord::Int(self.fin_anal),
            KeyWord::Int(self.fin_caudal),
            KeyWord::Int(self.fin_pectoral),
            KeyWord::Int(self.fin_pelvic),
            KeyWord::Int(self.fin_adipose),
            KeyWord::Flag(self.show_fin_dorsal),
            KeyWord::Flag(self.show_fin_anal),
            KeyWord::Flag(self.show_fin_caudal),
            KeyWord::Flag(self.show_fin_pectoral),
            KeyWord::Flag(self.show_fin_pelvic),
            KeyWord::Flag(self.show_fin_adipose),
            KeyWord::Int(self.anchor_offset_u),
            KeyWord::Int(self.anchor_offset_v),
            KeyWord::Word(self.color),
            KeyWord::Flag(self.dbg),
            KeyWord::Long(self.mesh_gen),
        ]
    }

    /// The words of the key, in order.
    pub fn words(&self) -> (words: Vec<KeyWord>)
        ensures
            words@ == self.key(),
    {
        let mut words: Vec<KeyWord> = Vec::new();
        push_words(
            &mut words,
            &vec![
                KeyWord::Byte(0x50),
                KeyWord::Word(self.sx),
                KeyWord::Word(self.sy),
                KeyWord::Int(self.seed),
            ],
        );
        push_text(&mut words, self.species.as_str());
        push_words(
            &mut words,
            &vec![
                KeyWord::Int(self.length),
                KeyWord::Int(self.width_param),
                KeyWord::Int(self.thickness),
                KeyWord::Word(self.spine_bend),
                KeyWord::Word(self.spine_s_curve),
                KeyWord::Int(self.fin_dorsal),
                KeyWord::Int(self.fin_anal),
                KeyWord::Int(self.fin_caudal),
                KeyWord::Int(self.fin_pectoral),
                KeyWord::Int(self.fin_pelvic),
                KeyWord::Int(self.fin_adipose),
                KeyWord::Flag(self.show_fin_dorsal),
                KeyWord::Flag(self.show_fin_anal),
                KeyWord::Flag(self.show_fin_caudal),
                KeyWord::Flag(self.show_fin_pectoral),
                KeyWord::Flag(self.show_fin_pelvic),
                KeyWord::Flag(self.show_fin_adipose),
                KeyWord::Int(self.anchor_offset_u),
                KeyWord::Int(self.anchor_offset_v),
                KeyWord::Word(self.color),
                KeyWord::Flag(self.dbg),
                KeyWord::Long(self.mesh_gen),
            ],
        );
        assert(words@ =~= self.key());
        words
    }
}

/// Cache key of the preview of a fish at the pointer.
pub fn hash_generator_piscina_hover(hover: &PiscinaHover) -> (r: u64)
    ensures
        possible_key(hover.key(), r),
{
    hash_words(&hover.words())
}

/// What decides the preview of a roof over its pins. Fractions are given by their bit patterns.
#[derive(Debug)]
pub struct RoofHover {
    pub pins: Vec<VoxelCoord>,
    pub style: String,
    pub height: i32,
    pub thickness: i32,
    pub break_ratio: u32,
    pub wall_height: i32,
    pub parapet_height: i32,
    pub salt_skew: u32,
    pub hollow: bool,
    pub color: u32,
    pub dbg: bool,
    pub mesh_gen: u64,
}

impl RoofHover {
    /// The words of the key, in order.
    pub open spec fn key(&self) -> Seq<KeyWord> {
        seq![
            KeyWord::Byte(0x52),
        ] + pin_words(self.pins@) + text_words(self.style@) + seq![
            KeyWord::Int(self.height),
            KeyWord::Int(self.thickness),
            KeyWord::Word(self.break_ratio),
            KeyWord::Int(self.wall_height),
            KeyWord::Int(self.parapet_height),
            KeyWord::Word(self.salt_skew),
            KeyWord::Flag(self.hollow),
            KeyWord::Word(self.color),
            KeyWord::Flag(self.dbg),
            KeyWord::Long(self.mesh_gen),
        ]
    }

    /// The words of the key, in order.
    pub fn words(&self) -> (words: Vec<KeyWord>)
        ensures
            words@ == self.key(),
    {
        let mut words: Vec<KeyWord> = Vec::new();
        push_words(
            &mut words,
            &vec![
                KeyWord::Byte(0x52),
            ],
        );
        push_pins(&mut words, &self.pins);
        push_text(&mut words, self.style.as_str());
        push_words(
            &mut words,
            &vec![
                KeyWord::Int(self.height),
                KeyWord::Int(self.thickness),
                KeyWord::Word(self.break_ratio),
                KeyWord::Int(self.wall_height),
                KeyWord::Int(self.parapet_height),
                KeyWord::Word(self.salt_skew),
                KeyWord::Flag(self.hollow),
                KeyWord::Word(self.color),
                KeyWord::Flag(self.dbg),
                KeyWord::Long(self.mesh_gen),
            ],
        );
        assert(words@ =~= self.key());
        words
    }
}

/// Cache key of the preview of a roof over its pins.
pub fn hash_generator_roof_hover(hover: &RoofHover) -> (r: u64)
    ensures
        possible_key(hover.key(), r),
{
    hash_words(&hover.words())
}

} // verus!
