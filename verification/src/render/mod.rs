//! The renderer's decisions: which resources a frame needs, how they are laid
//! out, what is drawn in which order, and what changes from one call to the next.

pub mod avatar;
pub mod bind_groups;
pub mod chunk_table;
pub mod draw_laws;
pub mod frame;
pub mod frame_laws;
pub mod layouts;
pub mod mascot;
pub mod mesh_buffers;
pub mod mesh_greedy;
pub mod mood;
pub mod opaque;
pub mod overlays;
pub mod pipelines;
pub mod raytrace;
pub mod rebuild;
pub mod scene_data;
pub mod speech_bubble;
pub mod surface;
pub mod text;
pub mod textures;
pub mod vertex_layout;
pub mod viewer;
