//! The hover preview: what is shown under the pointer, and when it has to be built anew.

pub mod answers;
pub mod cell_laws;
pub mod cells;
pub mod defaults;
pub mod display;
pub mod generator_keys;
pub mod hover_keys;
pub mod key_laws;
pub mod keys;
pub mod mode;
pub mod plan;
pub mod plan_laws;
pub mod session_key_laws;
pub mod session_keys;
pub mod settings;
