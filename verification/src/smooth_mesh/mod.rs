//! Smooth surfaces of a voxel model: marching cubes and dual contouring.

pub mod buckets;
pub mod closed;
pub mod contour;
pub mod count_laws;
pub mod crossing;
pub mod lattice;
pub mod marching;
pub mod marching_tables;
pub mod sample_laws;
pub mod slope_laws;
pub mod surface;
pub mod table_soundness;
pub mod table_winding;
pub mod whole_model;
pub mod winding;
