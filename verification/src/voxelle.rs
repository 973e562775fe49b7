//! Voxels, materials, the edited model and the edit records.

use vstd::prelude::*;

verus! {

/// Integer cell coordinate `(x, y, z)`.
pub type VoxelCoord = (i32, i32, i32);

/// Surface material of a voxel.
#[derive(Clone, Copy, Debug, PartialEq, Eq, Hash, Structural)]
pub enum MaterialId {
    Plastic,
    Metal,
    Rubber,
    Glass,
    Water,
    Glow,
    Velvet,
    Wax,
    Holographic,
}

/// Position of a material in the material list.
pub open spec fn material_rank(m: MaterialId) -> int {
    match m {
        MaterialId::Plastic => 0,
        MaterialId::Metal => 1,
        MaterialId::Rubber => 2,
        MaterialId::Glass => 3,
        MaterialId::Water => 4,
        MaterialId::Glow => 5,
        MaterialId::Velvet => 6,
        MaterialId::Wax => 7,
        MaterialId::Holographic => 8,
    }
}

/// The material at a position of the material list; `Plastic` outside of it.
pub open spec fn material_of_rank(i: int) -> MaterialId {
    if i == 1 {
        MaterialId::Metal
    } else if i == 2 {
        MaterialId::Rubber
    } else if i == 3 {
        MaterialId::Glass
    } else if i == 4 {
        MaterialId::Water
    } else if i == 5 {
        MaterialId::Glow
    } else if i == 6 {
        MaterialId::Velvet
    } else if i == 7 {
        MaterialId::Wax
    } else if i == 8 {
        MaterialId::Holographic
    } else {
        MaterialId::Plastic
    }
}

impl MaterialId {
    /// Position of the material in the material list.
    pub fn material_index(self) -> (r: u8)
        ensures
            r == material_rank(self),
    {
        match self {
            MaterialId::Plastic => 0,
            MaterialId::Metal => 1,
            MaterialId::Rubber => 2,
            MaterialId::Glass => 3,
            MaterialId::Water => 4,
            MaterialId::Glow => 5,
            MaterialId::Velvet => 6,
            MaterialId::Wax => 7,
            MaterialId::Holographic => 8,
        }
    }

    /// The material at position `i` of the material list, `Plastic` if there is none.
    pub fn from_index(i: u8) -> (r: MaterialId)
        ensures
            r == material_of_rank(i as int),
    {
        match i {
            1 => MaterialId::Metal,
            2 => MaterialId::Rubber,
            3 => MaterialId::Glass,
            4 => MaterialId::Water,
            5 => MaterialId::Glow,
            6 => MaterialId::Velvet,
            7 => MaterialId::Wax,
            8 => MaterialId::Holographic,
            _ => MaterialId::Plastic,
        }
    }
}

/// Reading a material back from its position gives the material.
pub proof fn law_material_index_round_trip(m: MaterialId)
    ensures
        material_of_rank(material_rank(m)) == m,
{
}

/// One filled cell of the model. The colour is `0xRRGGBB`.
#[derive(Clone, Copy, Debug, PartialEq, Eq, Structural)]
pub struct Voxel {
    pub x: i32,
    pub y: i32,
    pub z: i32,
    pub color: u32,
    pub material: MaterialId,
    pub object_id: u32,
}

/// The cell a voxel fills.
pub open spec fn coord_of(v: Voxel) -> VoxelCoord {
    (v.x, v.y, v.z)
}

/// Red channel of a `0xRRGGBB` colour.
pub open spec fn red(c: u32) -> int {
    (c as int / 0x10000) % 0x100
}

/// Green channel of a `0xRRGGBB` colour.
pub open spec fn green(c: u32) -> int {
    (c as int / 0x100) % 0x100
}

/// Blue channel of a `0xRRGGBB` colour.
pub open spec fn blue(c: u32) -> int {
    c as int % 0x100
}

/// The three channels of a `0xRRGGBB` colour; bits above them are ignored.
pub fn color_channels(c: u32) -> (r: (i32, i32, i32))
    ensures
        r.0 == red(c),
        r.1 == green(c),
        r.2 == blue(c),
        0 <= r.0 <= 255,
        0 <= r.1 <= 255,
        0 <= r.2 <= 255,
{
    (((c / 0x10000) % 0x100) as i32, ((c / 0x100) % 0x100) as i32, (c % 0x100) as i32)
}

/// Colour `0xRRGGBB` from three channels.
pub fn pack_color(r: u32, g: u32, b: u32) -> (c: u32)
    requires
        r <= 255,
        g <= 255,
        b <= 255,
    ensures
        c == r * 0x10000 + g * 0x100 + b,
        red(c) == r,
        green(c) == g,
        blue(c) == b,
{
    r * 0x10000 + g * 0x100 + b
}

/// The edited model: its voxels and the object that new voxels join.
#[derive(Debug)]
pub struct VoxelleFile {
    pub voxels: Vec<Voxel>,
    pub active_object_id: u32,
}

/// One recorded change of the model.
#[derive(Clone, Copy, Debug, PartialEq, Eq, Structural)]
pub enum VoxelEditDelta {
    Added(Voxel),
    Removed { voxel: Voxel },
    Painted { before: Voxel, after: Voxel },
}

/// The cells that may be filled: every coordinate between `lo` and `hi`, both included.
#[derive(Clone, Copy, Debug, PartialEq, Eq, Structural)]
pub struct GridRange {
    pub lo: i32,
    pub hi: i32,
}

/// Whether a cell lies in the grid.
pub open spec fn in_grid(c: VoxelCoord, grid: GridRange) -> bool {
    &&& grid.lo <= c.0 <= grid.hi
    &&& grid.lo <= c.1 <= grid.hi
    &&& grid.lo <= c.2 <= grid.hi
}

/// Whether a cell lies in the grid.
pub fn in_grid_bounds(x: i32, y: i32, z: i32, grid: GridRange) -> (r: bool)
    ensures
        r == in_grid((x, y, z), grid),
{
    grid.lo <= x && x <= grid.hi && grid.lo <= y && y <= grid.hi && grid.lo <= z && z <= grid.hi
}

} // verus!
