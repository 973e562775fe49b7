//! Sculpt smoothing: the majority pass over a footprint and the rebuild of a
//! region from a smoothed surface.

pub mod adjacency;
pub mod blend;
pub mod blend_laws;
pub mod laplacian;
pub mod majority;
pub mod majority_laws;
pub mod rebuild_laws;
pub mod region;
pub mod threshold_laws;
pub mod thresholds;
