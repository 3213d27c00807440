# niri_color

Colour management for a Wayland compositor, verified with Verus.

- `src/color.rs` — HDR static metadata for the DRM `HDR_OUTPUT_METADATA`
  property, the exact sRGB degamma table for `DEGAMMA_LUT` (computed in
  integers, with `src/bignat.rs` for the large powers it compares), the S31.32
  layout of the colour transform matrix, and the sampling grid of the 3D LUT.
- `src/protocols/color_management.rs` — what the wp-color-management-v1
  handlers decide: registered image descriptions, parametric creators, the
  events that describe a description, and preferred-description feedback.
- `src/render_helpers/shaders/` — the shader program set and which program a
  draw uses.
- `app/` — the compositor side: file and GL I/O, floating-point colour maths
  (gamut matrices, PQ table, ICC sampling), the Wayland object plumbing and
  the byte-level DRM structs.
