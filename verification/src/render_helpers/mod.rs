//! Rendering helpers.
pub mod shaders;
