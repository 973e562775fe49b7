//! Voxel model viewer: surface extraction, sculpt smoothing, preview and
//! frame planning, with every rule stated as a contract and proved.

pub mod collections;
pub mod distinct;
pub mod preview;
pub mod render;
pub mod sculpt_mesh_smooth;
pub mod smooth_mesh;
pub mod voxel_index;
pub mod voxelle;
