//! Wayland protocol state.
pub mod color_management;
