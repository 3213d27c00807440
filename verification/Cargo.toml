[package]
name = "niri_color"
version = "0.1.0"
edition = "2021"
publish = false

[dependencies]
anyhow = "1"
bytemuck = { version = "1", features = ["derive"] }
glam = "*"
lcms2 = "*"
libdisplay-info = "*"
smithay = { version = "*", default-features = false, features = ["wayland_frontend", "renderer_gl"] }
tracy-client = { version = "*", default-features = false }
wayland-protocols = { version = "*", features = ["server", "staging"] }
