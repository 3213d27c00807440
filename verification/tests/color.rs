use niri_color::color::{
    build_hdr_output_metadata, edid_color_info, generate_srgb_degamma_lut, lut_sample_grid,
    matrix_to_drm_ctm, EdidColorInfo, EdidColorPrimaries, HdrPrimaryChromaticity, LUT_SIZE,
    LUT_TEXELS,
};

fn float_degamma(size: u32) -> Vec<[u16; 4]> {
    (0..size)
        .map(|i| {
            let v = i as f64 / (size - 1) as f64;
            let linear = if v <= 0.04045 {
                v / 12.92
            } else {
                ((v + 0.055) / 1.055).powf(2.4)
            };
            let val = (linear * 65535.0).round() as u16;
            [val, val, val, 0]
        })
        .collect()
}

#[test]
fn degamma_matches_transfer_function() {
    for size in [2u32, 3, 17, 33, 256, 1024] {
        assert_eq!(generate_srgb_degamma_lut(size), float_degamma(size), "size {size}");
    }
}

#[test]
fn degamma_large_table() {
    let lut = generate_srgb_degamma_lut(4096);
    assert_eq!(lut, float_degamma(4096));
}

#[test]
fn degamma_edge_sizes() {
    assert!(generate_srgb_degamma_lut(0).is_empty());
    assert_eq!(generate_srgb_degamma_lut(1), vec![[0, 0, 0, 0]]);
    assert_eq!(generate_srgb_degamma_lut(2), vec![[0, 0, 0, 0], [65535, 65535, 65535, 0]]);
}

#[test]
fn degamma_known_values() {
    let lut = generate_srgb_degamma_lut(256);
    // 10/255 is on the linear segment: 65535 * (10/255) / 12.92 = 198.9...
    assert_eq!(lut[10][0], 199);
    // 128/255: ((0.50196 + 0.055) / 1.055)^2.4 * 65535 = 14078.0...
    assert_eq!(lut[128][0], float_degamma(256)[128][0]);
    assert_eq!(lut[255], [65535, 65535, 65535, 0]);
    assert_eq!(lut[0], [0, 0, 0, 0]);
}

#[test]
fn degamma_is_nondecreasing() {
    let lut = generate_srgb_degamma_lut(1024);
    for w in lut.windows(2) {
        assert!(w[0][0] <= w[1][0]);
    }
}

#[test]
fn hdr_metadata_defaults_to_bt2020() {
    let m = build_hdr_output_metadata(None, 1000, 50);
    let f = m.hdmi_metadata_type1;
    assert_eq!(m.metadata_type, 0);
    assert_eq!(f.eotf, 2);
    assert_eq!(f.metadata_type, 0);
    assert_eq!(f.display_primaries[0], HdrPrimaryChromaticity { x: 35400, y: 14599 });
    assert_eq!(f.display_primaries[1], HdrPrimaryChromaticity { x: 8500, y: 39850 });
    assert_eq!(f.display_primaries[2], HdrPrimaryChromaticity { x: 6550, y: 2300 });
    assert_eq!(f.white_point, HdrPrimaryChromaticity { x: 15634, y: 16450 });
    assert_eq!(f.max_display_mastering_luminance, 1000);
    assert_eq!(f.min_display_mastering_luminance, 50);
    assert_eq!(f.max_cll, 1000);
    assert_eq!(f.max_fall, 250);
}

#[test]
fn hdr_metadata_bt2020_matches_float_truncation() {
    let to = |v: f64| (v * 50000.0) as u16;
    let f = build_hdr_output_metadata(None, 0, 0).hdmi_metadata_type1;
    assert_eq!(f.display_primaries[0].x, to(0.708));
    assert_eq!(f.display_primaries[0].y, to(0.292));
    assert_eq!(f.display_primaries[1].x, to(0.170));
    assert_eq!(f.display_primaries[1].y, to(0.797));
    assert_eq!(f.display_primaries[2].x, to(0.131));
    assert_eq!(f.display_primaries[2].y, to(0.046));
    assert_eq!(f.white_point.x, to(0.3127));
    assert_eq!(f.white_point.y, to(0.3290));
}

#[test]
fn hdr_metadata_uses_edid_and_truncates_luminance() {
    let edid = EdidColorInfo {
        red: (34000, 16000),
        green: (13250, 34500),
        blue: (7500, 3000),
        white: (15635, 16450),
    };
    let m = build_hdr_output_metadata(Some(&edid), 70000, 65537);
    let f = m.hdmi_metadata_type1;
    assert_eq!(f.display_primaries[0], HdrPrimaryChromaticity { x: 34000, y: 16000 });
    assert_eq!(f.display_primaries[1], HdrPrimaryChromaticity { x: 13250, y: 34500 });
    assert_eq!(f.display_primaries[2], HdrPrimaryChromaticity { x: 7500, y: 3000 });
    assert_eq!(f.white_point, HdrPrimaryChromaticity { x: 15635, y: 16450 });
    assert_eq!(f.max_display_mastering_luminance, (70000u32 as u16));
    assert_eq!(f.max_cll, 70000u32 as u16);
    assert_eq!(f.min_display_mastering_luminance, 1);
    assert_eq!(f.max_fall, 17500);
}

#[test]
fn edid_info_needs_primaries_and_white() {
    let mut p = EdidColorPrimaries {
        has_primaries: true,
        has_default_white_point: true,
        primary: [(1, 2), (3, 4), (5, 6)],
        default_white: (7, 8),
    };
    assert_eq!(
        edid_color_info(&p),
        Some(EdidColorInfo { red: (1, 2), green: (3, 4), blue: (5, 6), white: (7, 8) })
    );
    p.has_default_white_point = false;
    assert_eq!(edid_color_info(&p), None);
    p.has_default_white_point = true;
    p.has_primaries = false;
    assert_eq!(edid_color_info(&p), None);
}

#[test]
fn ctm_layout_is_row_major_sign_magnitude() {
    let negative = [[false, true, false], [false, false, true], [true, false, false]];
    let magnitude = [[1u64 << 32, 1 << 31, 0], [3, 1 << 32, 5], [7, 8, 1 << 32]];
    let ctm = matrix_to_drm_ctm(&negative, &magnitude);
    assert_eq!(ctm[0], 1 << 32);
    assert_eq!(ctm[1], (1 << 63) | (1 << 31));
    assert_eq!(ctm[2], 0);
    assert_eq!(ctm[3], 3);
    assert_eq!(ctm[4], 1 << 32);
    assert_eq!(ctm[5], (1 << 63) | 5);
    assert_eq!(ctm[6], (1 << 63) | 7);
    assert_eq!(ctm[7], 8);
    assert_eq!(ctm[8], 1 << 32);
}

#[test]
fn ctm_negative_zero_keeps_sign_bit() {
    let ctm = matrix_to_drm_ctm(&[[true; 3]; 3], &[[0; 3]; 3]);
    assert!(ctm.iter().all(|&v| v == 1 << 63));
}

#[test]
fn lut_grid_order() {
    let grid = lut_sample_grid();
    assert_eq!(grid.len(), LUT_TEXELS);
    assert_eq!(LUT_TEXELS, LUT_SIZE * LUT_SIZE * LUT_SIZE);
    let mut k = 0;
    for b in 0..33u32 {
        for g in 0..33u32 {
            for r in 0..33u32 {
                assert_eq!(grid[k], [r, g, b]);
                k += 1;
            }
        }
    }
}

#[test]
fn ctm_entries_decode() {
    let negative = [[true, false, true], [false, true, false], [true, true, false]];
    let magnitude = [[5u64, 1 << 40, 0], [(1 << 63) - 1, 42, 1 << 32], [9, 10, 11]];
    let ctm = matrix_to_drm_ctm(&negative, &magnitude);
    for row in 0..3 {
        for col in 0..3 {
            let v = ctm[row * 3 + col];
            assert_eq!(v & (1 << 63) != 0, negative[row][col]);
            assert_eq!(v & !(1 << 63), magnitude[row][col]);
        }
    }
}

#[test]
fn degamma_endpoints_for_many_sizes() {
    for size in [2u32, 5, 100, 255, 4097] {
        let lut = generate_srgb_degamma_lut(size);
        assert_eq!(lut[0], [0, 0, 0, 0]);
        assert_eq!(lut[size as usize - 1], [65535, 65535, 65535, 0]);
    }
}
