//! Settings of a preview that are not given.

use vstd::prelude::*;

verus! {

/// A switch that is on.
pub fn default_true() -> (r: bool)
    ensures
        r == true,
{
    true
}

/// Seed of masonry.
pub fn default_ashlar_seed() -> (r: i32)
    ensures
        r == 42,
{
    42
}

/// Thickness of masonry.
pub fn default_ashlar_thickness() -> (r: i32)
    ensures
        r == 3,
{
    3
}

/// Seed of rocks.
pub fn default_rock_seed() -> (r: i32)
    ensures
        r == 42,
{
    42
}

/// Height of grass.
pub fn default_grass_max_height() -> (r: i32)
    ensures
        r == 3,
{
    3
}

/// Seed of grass.
pub fn default_grass_seed() -> (r: i32)
    ensures
        r == 42,
{
    42
}

/// Seed of plants.
pub fn default_flora_seed() -> (r: i32)
    ensures
        r == 42,
{
    42
}

/// Girth of plants.
pub fn default_flora_girth() -> (r: i32)
    ensures
        r == 2,
{
    2
}

/// Branches of plants.
pub fn default_flora_branch_count() -> (r: i32)
    ensures
        r == 4,
{
    4
}

/// Length of insects.
pub fn default_insecta_total_length() -> (r: i32)
    ensures
        r == 12,
{
    12
}

/// Place of the hips of animals.
pub fn default_fauna_hip_offset_forward() -> (r: i32)
    ensures
        r == -3,
{
    -3
}

/// Seed of fish.
pub fn default_piscina_seed() -> (r: i32)
    ensures
        r == 42,
{
    42
}

/// Two.
pub fn default_two_i32() -> (r: i32)
    ensures
        r == 2,
{
    2
}

/// Three.
pub fn default_three_i32() -> (r: i32)
    ensures
        r == 3,
{
    3
}

/// Four.
pub fn default_four_i32() -> (r: i32)
    ensures
        r == 4,
{
    4
}

/// Passes over the threads of cloth.
pub fn default_cloth_constraint_passes_u32() -> (r: u32)
    ensures
        r == 2,
{
    2
}

/// Size of shapes.
pub fn default_shape_size() -> (r: i32)
    ensures
        r == 8,
{
    8
}

/// The way cloth and ropes hang.
pub fn default_cloth_gravity_direction_str() -> (r: String)
    ensures
        r@ == "down"@,
{
    "down".to_string()
}

/// Kind of shapes.
pub fn default_shape_kind() -> (r: String)
    ensures
        r@ == "cube"@,
{
    "cube".to_string()
}

} // verus!
