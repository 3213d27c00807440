//! Colour handling for a Wayland compositor: HDR metadata, DRM colour tables,
//! the colour-management protocol state and shader bookkeeping.
mod bignat;
pub mod color;
pub mod protocols;
pub mod render_helpers;
