//! Output colour handling: HDR static metadata for the DRM `HDR_OUTPUT_METADATA`
//! property, the sRGB degamma table for `DEGAMMA_LUT`, the S31.32 colour
//! transform matrix layout and the sampling grid of the 3D colour LUT.
use vstd::prelude::*;

use crate::bignat::{from_u64, less_or_equal, mul_pow, pow_nat, value, lemma_pow_nat_monotone};

verus! {

/// Size of each dimension in the 3D LUT (33^3 = 35,937 texels).
pub const LUT_SIZE: usize = 33;

/// Number of texels in the 3D LUT.
pub const LUT_TEXELS: usize = 35937;

/// One chromaticity coordinate pair as the HDR infoframe carries it:
/// CIE xy × 50,000.
#[derive(Clone, Copy, Debug, Default, PartialEq, Eq)]
pub struct HdrPrimaryChromaticity {
    pub x: u16,
    pub y: u16,
}

/// Matches `struct hdr_metadata_infoframe` from `<drm/drm_mode.h>`.
///
/// display_primaries order: [0]=red, [1]=green, [2]=blue.
/// Chromaticity values are CIE xy × 50,000.
/// Luminance: max in cd/m², min in 0.0001 cd/m².
#[derive(Clone, Copy, Debug, Default, PartialEq, Eq)]
pub struct HdrMetadataInfoframe {
    pub eotf: u8,
    pub metadata_type: u8,
    pub display_primaries: [HdrPrimaryChromaticity; 3],
    pub white_point: HdrPrimaryChromaticity,
    pub max_display_mastering_luminance: u16,
    pub min_display_mastering_luminance: u16,
    pub max_cll: u16,
    pub max_fall: u16,
}

/// Matches `struct hdr_output_metadata` from `<drm/drm_mode.h>`:
/// 4 bytes of metadata type followed by the 26-byte infoframe.
#[derive(Clone, Copy, Debug, Default, PartialEq, Eq)]
pub struct HdrOutputMetadata {
    pub metadata_type: u32,
    pub hdmi_metadata_type1: HdrMetadataInfoframe,
}

/// Colour information extracted from the EDID of a display, with every
/// chromaticity coordinate held as CIE xy × 50,000 (truncated), the unit of
/// the HDR infoframe.
#[derive(Clone, Copy, Debug, PartialEq, Eq)]
pub struct EdidColorInfo {
    /// Chromaticity of the red primary.
    pub red: (u16, u16),
    /// Chromaticity of the green primary.
    pub green: (u16, u16),
    /// Chromaticity of the blue primary.
    pub blue: (u16, u16),
    /// Chromaticity of the white point.
    pub white: (u16, u16),
}

/// The default colour primaries block that an EDID parser reports, with the
/// coordinates in the same CIE xy × 50,000 unit as [`EdidColorInfo`].
#[derive(Clone, Copy, Debug, PartialEq, Eq)]
pub struct EdidColorPrimaries {
    pub has_primaries: bool,
    pub has_default_white_point: bool,
    /// [0]=red, [1]=green, [2]=blue.
    pub primary: [(u16, u16); 3],
    pub default_white: (u16, u16),
}

/// The chromaticity pair `(x, y)` as an infoframe entry.
pub open spec fn chromaticity(c: (u16, u16)) -> HdrPrimaryChromaticity {
    HdrPrimaryChromaticity { x: c.0, y: c.1 }
}

/// BT.2020 primaries and D65 white point in infoframe units: the truncations of
/// R(0.708, 0.292) G(0.170, 0.797) B(0.131, 0.046) W(0.3127, 0.3290) × 50,000
/// as double-precision arithmetic computes them.
pub open spec fn bt2020_color_info() -> EdidColorInfo {
    EdidColorInfo {
        red: (35400, 14599),
        green: (8500, 39850),
        blue: (6550, 2300),
        white: (15634, 16450),
    }
}

/// The HDR metadata that [`build_hdr_output_metadata`] produces.
pub open spec fn hdr_output_metadata_spec(
    info: EdidColorInfo,
    max_luminance: u32,
    min_luminance: u32,
) -> HdrOutputMetadata {
    HdrOutputMetadata {
        metadata_type: 0,
        hdmi_metadata_type1: HdrMetadataInfoframe {
            eotf: 2,
            metadata_type: 0,
            display_primaries: [
                chromaticity(info.red),
                chromaticity(info.green),
                chromaticity(info.blue),
            ],
            white_point: chromaticity(info.white),
            max_display_mastering_luminance: (max_luminance % 0x1_0000) as u16,
            min_display_mastering_luminance: (min_luminance % 0x1_0000) as u16,
            max_cll: (max_luminance % 0x1_0000) as u16,
            max_fall: ((max_luminance / 4) % 0x1_0000) as u16,
        },
    }
}

fn to_chromaticity(c: (u16, u16)) -> (r: HdrPrimaryChromaticity)
    ensures
        r == chromaticity(c),
{
    HdrPrimaryChromaticity { x: c.0, y: c.1 }
}

fn bt2020_info() -> (r: EdidColorInfo)
    ensures
        r == bt2020_color_info(),
{
    EdidColorInfo { red: (35400, 14599), green: (8500, 39850), blue: (6550, 2300), white: (15634, 16450) }
}

/// Build HDR output metadata for the DRM `HDR_OUTPUT_METADATA` connector property.
///
/// Uses HDMI Static Metadata Type 1 with SMPTE ST 2084 (PQ) EOTF.
/// Primaries come from EDID when available, otherwise default to BT.2020.
/// Luminances are truncated to 16 bits; `max_fall` is a quarter of `max_luminance`.
pub fn build_hdr_output_metadata(
    edid: Option<&EdidColorInfo>,
    max_luminance: u32,
    min_luminance: u32,
) -> (r: HdrOutputMetadata)
    ensures
        r.metadata_type == 0,
        r.hdmi_metadata_type1.eotf == 2,
        r.hdmi_metadata_type1.metadata_type == 0,
        r == hdr_output_metadata_spec(
            match edid {
                Some(e) => *e,
                None => bt2020_color_info(),
            },
            max_luminance,
            min_luminance,
        ),
{
    let info = match edid {
        Some(e) => *e,
        None => bt2020_info(),
    };
    let max16 = (max_luminance % 0x1_0000) as u16;
    HdrOutputMetadata {
        // HDMI_STATIC_METADATA_TYPE1
        metadata_type: 0,
        hdmi_metadata_type1: HdrMetadataInfoframe {
            // SMPTE ST 2084 (PQ)
            eotf: 2,
            // Static Metadata Type 1
            metadata_type: 0,
            display_primaries: [
                to_chromaticity(info.red),
                to_chromaticity(info.green),
                to_chromaticity(info.blue),
            ],
            white_point: to_chromaticity(info.white),
            max_display_mastering_luminance: max16,
            // min_luminance is in 0.0001 cd/m² units.
            min_display_mastering_luminance: (min_luminance % 0x1_0000) as u16,
            max_cll: max16,
            max_fall: ((max_luminance / 4) % 0x1_0000) as u16,
        },
    }
}

/// The HDR metadata always announces HDMI Static Metadata Type 1 with the
/// SMPTE ST 2084 (PQ) EOTF, whatever the luminances; it carries the given
/// primaries and white point, the luminances truncated to 16 bits, `max_cll`
/// equal to the maximum luminance and `max_fall` a quarter of it.
pub proof fn lemma_hdr_metadata_is_pq_type1(info: EdidColorInfo, max_luminance: u32, min_luminance: u32)
    ensures
        ({
            let m = hdr_output_metadata_spec(info, max_luminance, min_luminance);
            let f = m.hdmi_metadata_type1;
            &&& m.metadata_type == 0
            &&& f.eotf == 2
            &&& f.metadata_type == 0
            &&& f.display_primaries[0].x == info.red.0 && f.display_primaries[0].y == info.red.1
            &&& f.display_primaries[1].x == info.green.0 && f.display_primaries[1].y == info.green.1
            &&& f.display_primaries[2].x == info.blue.0 && f.display_primaries[2].y == info.blue.1
            &&& f.white_point.x == info.white.0 && f.white_point.y == info.white.1
            &&& f.max_display_mastering_luminance as int == max_luminance % 0x1_0000
            &&& f.min_display_mastering_luminance as int == min_luminance % 0x1_0000
            &&& f.max_cll as int == max_luminance % 0x1_0000
            &&& f.max_fall as int == (max_luminance / 4) % 0x1_0000
        }),
{
}

/// Extract colour information from the EDID's default colour primaries: present
/// only when the EDID carries both the primaries and the default white point.
pub fn edid_color_info(primaries: &EdidColorPrimaries) -> (r: Option<EdidColorInfo>)
    ensures
        r is Some <==> (primaries.has_primaries && primaries.has_default_white_point),
        r matches Some(info) ==> {
            &&& info.red == primaries.primary[0]
            &&& info.green == primaries.primary[1]
            &&& info.blue == primaries.primary[2]
            &&& info.white == primaries.default_white
        },
{
    if !primaries.has_primaries || !primaries.has_default_white_point {
        return None;
    }
    // primary[0] = red, primary[1] = green, primary[2] = blue
    Some(
        EdidColorInfo {
            red: primaries.primary[0],
            green: primaries.primary[1],
            blue: primaries.primary[2],
            white: primaries.default_white,
        },
    )
}

// --- DRM colour transform matrix ---

/// Sign bit of an S31.32 sign-magnitude value.
pub const CTM_SIGN_BIT: u64 = 0x8000_0000_0000_0000;

/// One S31.32 entry: the sign in the MSB (bit 63), or-ed onto the magnitude.
pub open spec fn ctm_entry_spec(negative: bool, magnitude: u64) -> u64 {
    if negative {
        magnitude | 0x8000_0000_0000_0000u64
    } else {
        magnitude
    }
}

fn ctm_entry(negative: bool, magnitude: u64) -> (r: u64)
    ensures
        r == ctm_entry_spec(negative, magnitude),
{
    let sign: u64 = if negative {
        CTM_SIGN_BIT
    } else {
        0
    };
    let r = sign | magnitude;
    assert(0u64 | magnitude == magnitude) by (bit_vector);
    assert(CTM_SIGN_BIT | magnitude == magnitude | 0x8000_0000_0000_0000u64) by (bit_vector);
    r
}

/// Lay out a 3×3 matrix, given per entry as a sign and an S31.32 magnitude
/// (32 fractional bits), as DRM `drm_color_ctm.matrix[9]`: row-major, each
/// entry with its sign in bit 63.
pub fn matrix_to_drm_ctm(negative: &[[bool; 3]; 3], magnitude: &[[u64; 3]; 3]) -> (r: [u64; 9])
    ensures
        forall|row: int, col: int|
            0 <= row < 3 && 0 <= col < 3 ==> #[trigger] r[row * 3 + col] == ctm_entry_spec(
                negative[row][col],
                magnitude[row][col],
            ),
{
    let r = [
        ctm_entry(negative[0][0], magnitude[0][0]),
        ctm_entry(negative[0][1], magnitude[0][1]),
        ctm_entry(negative[0][2], magnitude[0][2]),
        ctm_entry(negative[1][0], magnitude[1][0]),
        ctm_entry(negative[1][1], magnitude[1][1]),
        ctm_entry(negative[1][2], magnitude[1][2]),
        ctm_entry(negative[2][0], magnitude[2][0]),
        ctm_entry(negative[2][1], magnitude[2][1]),
        ctm_entry(negative[2][2], magnitude[2][2]),
    ];
    assert forall|row: int, col: int| 0 <= row < 3 && 0 <= col < 3 implies #[trigger] r[row * 3
        + col] == ctm_entry_spec(negative[row][col], magnitude[row][col]) by {
        if row == 0 {
            if col == 0 {
            } else if col == 1 {
            } else {
            }
        } else if row == 1 {
            if col == 0 {
            } else if col == 1 {
            } else {
            }
        } else {
            if col == 0 {
            } else if col == 1 {
            } else {
            }
        }
    }
    r
}

/// An S31.32 entry gives back its sign and, below 2^63, its magnitude.
pub proof fn lemma_ctm_entry_decodes(negative: bool, magnitude: u64)
    requires
        magnitude < 0x8000_0000_0000_0000u64,
    ensures
        (ctm_entry_spec(negative, magnitude) & 0x8000_0000_0000_0000u64 != 0) == negative,
        ctm_entry_spec(negative, magnitude) & 0x7fff_ffff_ffff_ffffu64 == magnitude,
{
    if negative {
        assert(magnitude < 0x8000_0000_0000_0000u64 ==> ((magnitude | 0x8000_0000_0000_0000u64)
            & 0x8000_0000_0000_0000u64 != 0) && ((magnitude | 0x8000_0000_0000_0000u64)
            & 0x7fff_ffff_ffff_ffffu64 == magnitude)) by (bit_vector);
    } else {
        assert(magnitude < 0x8000_0000_0000_0000u64 ==> (magnitude & 0x8000_0000_0000_0000u64 == 0)
            && (magnitude & 0x7fff_ffff_ffff_ffffu64 == magnitude)) by (bit_vector);
    }
}

// --- 3D LUT sampling grid ---

/// The grid point `[r, g, b]` that texel `k` of the 3D LUT samples: red varies
/// fastest, then green, then blue.
pub open spec fn lut_grid_point(k: int) -> (int, int, int) {
    (k % 33, (k / 33) % 33, k / 1089)
}

/// The sampling grid of the 3D LUT, in texel order: entry `k` holds the grid
/// indices `[r, g, b]` (each in `0..LUT_SIZE`) with `k == (b * 33 + g) * 33 + r`.
/// A texel samples the colour `[r, g, b] / (LUT_SIZE - 1)`.
pub fn lut_sample_grid() -> (grid: Vec<[u32; 3]>)
    ensures
        grid.len() == LUT_TEXELS,
        forall|k: int|
            0 <= k < LUT_TEXELS ==> {
                let p = lut_grid_point(k);
                &&& (#[trigger] grid[k])[0] == p.0
                &&& grid[k][1] == p.1
                &&& grid[k][2] == p.2
            },
{
    let mut grid: Vec<[u32; 3]> = Vec::new();
    let mut b: u32 = 0;
    while b < 33
        invariant
            b <= 33,
            grid.len() == b * 1089,
            forall|k: int|
                0 <= k < grid.len() ==> {
                    let p = lut_grid_point(k);
                    &&& (#[trigger] grid[k])[0] == p.0
                    &&& grid[k][1] == p.1
                    &&& grid[k][2] == p.2
                },
        decreases 33 - b,
    {
        let mut g: u32 = 0;
        while g < 33
            invariant
                b < 33,
                g <= 33,
                grid.len() == b * 1089 + g * 33,
                forall|k: int|
                    0 <= k < grid.len() ==> {
                        let p = lut_grid_point(k);
                        &&& (#[trigger] grid[k])[0] == p.0
                        &&& grid[k][1] == p.1
                        &&& grid[k][2] == p.2
                    },
            decreases 33 - g,
        {
            let mut r: u32 = 0;
            while r < 33
                invariant
                    b < 33,
                    g < 33,
                    r <= 33,
                    grid.len() == b * 1089 + g * 33 + r,
                    forall|k: int|
                        0 <= k < grid.len() ==> {
                            let p = lut_grid_point(k);
                            &&& (#[trigger] grid[k])[0] == p.0
                            &&& grid[k][1] == p.1
                            &&& grid[k][2] == p.2
                        },
                decreases 33 - r,
            {
                let ghost k = grid.len() as int;
                proof {
                    assert(k % 33 == r as int && (k / 33) % 33 == g as int && k / 1089 == b as int)
                        by (nonlinear_arith)
                        requires
                            k == b * 1089 + g * 33 + r,
                            r < 33,
                            g < 33,
                    ;
                }
                grid.push([r, g, b]);
                r += 1;
            }
            g += 1;
        }
        b += 1;
    }
    grid
}

/// Each grid point `[r, g, b]` is sampled by texel `(b * 33 + g) * 33 + r`.
pub proof fn lemma_lut_grid_index(r: int, g: int, b: int)
    requires
        0 <= r < 33,
        0 <= g < 33,
        0 <= b < 33,
    ensures
        0 <= (b * 33 + g) * 33 + r < LUT_TEXELS,
        lut_grid_point((b * 33 + g) * 33 + r) == (r, g, b),
{
    let k = (b * 33 + g) * 33 + r;
    assert(k == b * 1089 + g * 33 + r) by (nonlinear_arith)
        requires
            k == (b * 33 + g) * 33 + r,
    ;
    assert(0 <= k < 35937 && k % 33 == r && (k / 33) % 33 == g && k / 1089 == b) by (nonlinear_arith)
        requires
            k == b * 1089 + g * 33 + r,
            0 <= r < 33,
            0 <= g < 33,
            0 <= b < 33,
    ;
}

// --- sRGB degamma table ---

/// Whether `k - 1/2 <= 65535 · (a / b)^2.4`, that is
/// `(2k − 1)^5 · b^12 <= 131070^5 · a^12` (trivially for `k == 0`).
pub open spec fn srgb_code_reached(k: nat, a: nat, b: nat) -> bool {
    k == 0 || pow_nat((2 * k - 1) as nat, 5) * pow_nat(b, 12) <= pow_nat(131070, 5) * pow_nat(a, 12)
}

/// The greatest `j <= k` with `srgb_code_reached(j, a, b)`.
pub open spec fn srgb_greatest_code(k: nat, a: nat, b: nat) -> nat
    decreases k,
{
    if k == 0 || srgb_code_reached(k, a, b) {
        k
    } else {
        srgb_greatest_code((k - 1) as nat, a, b)
    }
}

/// Entry `i` of an sRGB degamma table of `size` entries: with
/// `v = i / (size − 1)`, the value `round(65535 · v / 12.92)` when `v <= 0.04045`
/// and `round(65535 · ((v + 0.055) / 1.055)^2.4)` otherwise, rounding halves up.
/// In exact integer terms the second is the greatest code `k <= 65535` with
/// `k − 1/2 <= 65535 · (a / b)^2.4` where `a = 1000 i + 55 (size − 1)` and
/// `b = 1055 (size − 1)`. A table of one entry holds 0 (its only `v` is 0 / 0).
pub open spec fn srgb_degamma_entry(i: nat, size: nat) -> nat {
    if size <= 1 {
        0
    } else if 100000 * i <= 4045 * (size - 1) {
        ((13107000 * i + 1292 * (size - 1)) / (2584 * (size - 1))) as nat
    } else {
        srgb_greatest_code(65535, (1000 * i + 55 * (size - 1)) as nat, (1055 * (size - 1)) as nat)
    }
}

proof fn lemma_code_reached_monotone(j: nat, k: nat, a: nat, b: nat)
    requires
        j <= k,
        srgb_code_reached(k, a, b),
    ensures
        srgb_code_reached(j, a, b),
{
    if j > 0 {
        lemma_pow_nat_monotone((2 * j - 1) as nat, (2 * k - 1) as nat, 5);
        let pj = pow_nat((2 * j - 1) as nat, 5);
        let pk = pow_nat((2 * k - 1) as nat, 5);
        let d = pow_nat(b, 12);
        assert(pj * d <= pk * d) by (nonlinear_arith)
            requires
                pj <= pk,
                d >= 0,
        ;
    }
}

proof fn lemma_greatest_code(kk: nat, lo: nat, a: nat, b: nat)
    requires
        lo <= kk,
        srgb_code_reached(lo, a, b),
        forall|j: nat| lo < j <= kk ==> !#[trigger] srgb_code_reached(j, a, b),
    ensures
        srgb_greatest_code(kk, a, b) == lo,
    decreases kk,
{
    if kk > lo {
        assert(!srgb_code_reached(kk, a, b));
        lemma_greatest_code((kk - 1) as nat, lo, a, b);
    }
}

/// `srgb_code_reached(k, a, b)` for the limbs of `b^12` and of `131070^5 · a^12`.
fn srgb_code_reached_exec(k: u32, d: &Vec<u32>, n: &Vec<u32>, Ghost(a): Ghost<nat>, Ghost(b): Ghost<nat>) -> (r: bool)
    requires
        k <= 65535,
        value(d@) == pow_nat(b, 12),
        value(n@) == pow_nat(131070, 5) * pow_nat(a, 12),
    ensures
        r == srgb_code_reached(k as nat, a, b),
{
    if k == 0 {
        return true;
    }
    let lhs = mul_pow(d, (2 * k - 1) as u64, 5);
    proof {
        let p = pow_nat((2 * k - 1) as nat, 5);
        assert(value(d@) * p == p * pow_nat(b, 12)) by (nonlinear_arith)
            requires
                value(d@) == pow_nat(b, 12),
        ;
    }
    less_or_equal(&lhs, n)
}

/// The code of the power segment: the greatest `k <= 65535` with
/// `srgb_code_reached(k, a, b)`, found by bisection.
fn srgb_power_code(a: u64, b: u64) -> (r: u16)
    ensures
        r == srgb_greatest_code(65535, a as nat, b as nat),
{
    let one = from_u64(1);
    let d = mul_pow(&one, b, 12);
    let c = mul_pow(&one, 131070, 5);
    let n = mul_pow(&c, a, 12);
    proof {
        assert(1 * pow_nat(b as nat, 12) == pow_nat(b as nat, 12));
        assert(1 * pow_nat(131070, 5) == pow_nat(131070, 5));
    }
    let mut lo: u32 = 0;
    let mut hi: u32 = 65536;
    while hi - lo > 1
        invariant
            lo < hi <= 65536,
            value(d@) == pow_nat(b as nat, 12),
            value(n@) == pow_nat(131070, 5) * pow_nat(a as nat, 12),
            srgb_code_reached(lo as nat, a as nat, b as nat),
            hi <= 65535 ==> !srgb_code_reached(hi as nat, a as nat, b as nat),
        decreases hi - lo,
    {
        let mid = lo + (hi - lo) / 2;
        if srgb_code_reached_exec(mid, &d, &n, Ghost(a as nat), Ghost(b as nat)) {
            lo = mid;
        } else {
            hi = mid;
        }
    }
    proof {
        assert forall|j: nat| lo < j <= 65535 implies !#[trigger] srgb_code_reached(
            j,
            a as nat,
            b as nat,
        ) by {
            if srgb_code_reached(j, a as nat, b as nat) {
                lemma_code_reached_monotone(hi as nat, j, a as nat, b as nat);
            }
        }
        lemma_greatest_code(65535, lo as nat, a as nat, b as nat);
    }
    lo as u16
}

/// Entry `i` of the degamma table of `size` entries.
fn srgb_degamma_code(i: u32, size: u32) -> (r: u16)
    requires
        i < size,
    ensures
        r == srgb_degamma_entry(i as nat, size as nat),
{
    if size <= 1 {
        return 0;
    }
    let i64v = i as u64;
    let last = (size - 1) as u64;
    if 100000 * i64v <= 4045 * last {
        let num = 13107000 * i64v + 1292 * last;
        let den = 2584 * last;
        let q = num / den;
        proof {
            assert(num <= 13108292 * last) by (nonlinear_arith)
                requires
                    num == 13107000 * i64v + 1292 * last,
                    i64v <= last,
            ;
            assert(q * den <= num) by (nonlinear_arith)
                requires
                    q == num / den,
                    den > 0,
            ;
            assert(q <= 5073) by (nonlinear_arith)
                requires
                    q * den <= num,
                    num <= 13108292 * last,
                    den == 2584 * last,
                    last > 0,
            ;
        }
        q as u16
    } else {
        srgb_power_code(1000 * i64v + 55 * last, 1055 * last)
    }
}

proof fn lemma_pow_nat_mul(x: nat, y: nat, e: nat)
    ensures
        pow_nat(x * y, e) == pow_nat(x, e) * pow_nat(y, e),
    decreases e,
{
    if e > 0 {
        lemma_pow_nat_mul(x, y, (e - 1) as nat);
        let px = pow_nat(x, (e - 1) as nat);
        let py = pow_nat(y, (e - 1) as nat);
        let pxy = pow_nat(x * y, (e - 1) as nat);
        assert(pow_nat(x * y, e) == (x * y) * pxy);
        assert(pow_nat(x, e) == x * px);
        assert(pow_nat(y, e) == y * py);
        assert((x * y) * pxy == (x * px) * (y * py)) by (nonlinear_arith)
            requires
                pxy == px * py,
        ;
    } else {
        assert(pow_nat(x * y, 0) == 1);
        assert(pow_nat(x, 0) * pow_nat(y, 0) == 1 * 1);
    }
}

proof fn lemma_pow_nat_positive(x: nat, e: nat)
    requires
        x > 0,
    ensures
        pow_nat(x, e) > 0,
    decreases e,
{
    if e > 0 {
        lemma_pow_nat_positive(x, (e - 1) as nat);
        let px = pow_nat(x, (e - 1) as nat);
        assert(x * px > 0) by (nonlinear_arith)
            requires
                x > 0,
                px > 0,
        ;
    }
}

/// A code reached at `a` is reached at every larger `a2`.
proof fn lemma_reached_grows_with_a(k: nat, a: nat, a2: nat, b: nat)
    requires
        a <= a2,
        srgb_code_reached(k, a, b),
    ensures
        srgb_code_reached(k, a2, b),
{
    if k > 0 {
        lemma_pow_nat_monotone(a, a2, 12);
        let c = pow_nat(131070, 5);
        let pa = pow_nat(a, 12);
        let pa2 = pow_nat(a2, 12);
        assert(c * pa <= c * pa2) by (nonlinear_arith)
            requires
                pa <= pa2,
        ;
    }
}

proof fn lemma_greatest_is_reached(kk: nat, a: nat, b: nat)
    ensures
        srgb_code_reached(srgb_greatest_code(kk, a, b), a, b),
        srgb_greatest_code(kk, a, b) <= kk,
    decreases kk,
{
    if kk > 0 && !srgb_code_reached(kk, a, b) {
        lemma_greatest_is_reached((kk - 1) as nat, a, b);
    }
}

proof fn lemma_greatest_at_least(kk: nat, j: nat, a: nat, b: nat)
    requires
        j <= kk,
        srgb_code_reached(j, a, b),
    ensures
        srgb_greatest_code(kk, a, b) >= j,
    decreases kk,
{
    if kk > 0 && !srgb_code_reached(kk, a, b) {
        lemma_greatest_at_least((kk - 1) as nat, j, a, b);
    }
}

/// Past the linear segment the table has reached code 205, the most that the
/// linear segment gives.
proof fn lemma_power_segment_reaches_205(a: nat, m: nat)
    requires
        m > 0,
        100 * a > 9545 * m,
    ensures
        srgb_code_reached(205, a, 1055 * m),
{
    let b = 1055 * m;
    lemma_pow_nat_mul(1055, m, 12);
    lemma_pow_nat_mul(100, a, 12);
    lemma_pow_nat_mul(9545, m, 12);
    lemma_pow_nat_monotone(9545 * m, 100 * a, 12);
    lemma_pow_nat_positive(100, 12);
    let p409 = pow_nat(409, 5);
    let p1055 = pow_nat(1055, 12);
    let p100 = pow_nat(100, 12);
    let p9545 = pow_nat(9545, 12);
    let pc = pow_nat(131070, 5);
    let pm = pow_nat(m, 12);
    let pa = pow_nat(a, 12);
    assert(p409 * p1055 * p100 <= pc * p9545) by {
        reveal_with_fuel(pow_nat, 13);
        assert(p409 == 11445019581049nat);
        assert(p1055 == 1901207485759008451060664824462890625nat);
        assert(p100 == 1000000000000000000000000nat);
        assert(p9545 == 571888275177857485306338665127610078535400390625nat);
        assert(pc == 38682674838686958230700000nat);
    }
    assert(p9545 * pm <= p100 * pa);
    assert(p409 * (p1055 * pm) <= pc * pa) by (nonlinear_arith)
        requires
            p409 * p1055 * p100 <= pc * p9545,
            p9545 * pm <= p100 * pa,
            p100 > 0,
            pm >= 0,
            pc >= 0,
    ;
    assert(((2 * 205 - 1) as nat) == 409);
}

/// The degamma table never decreases: a brighter input never maps to less light.
pub proof fn lemma_degamma_nondecreasing(i: nat, j: nat, size: nat)
    requires
        i <= j < size,
    ensures
        srgb_degamma_entry(i, size) <= srgb_degamma_entry(j, size),
{
    if size <= 1 {
        return;
    }
    let m = (size - 1) as nat;
    let lin_i = 100000 * i <= 4045 * m;
    let lin_j = 100000 * j <= 4045 * m;
    if lin_i && lin_j {
        vstd::arithmetic::div_mod::lemma_div_is_ordered(
            (13107000 * i + 1292 * m) as int,
            (13107000 * j + 1292 * m) as int,
            (2584 * m) as int,
        );
    } else if !lin_i && !lin_j {
        let ai = 1000 * i + 55 * m;
        let aj = 1000 * j + 55 * m;
        let b = 1055 * m;
        lemma_greatest_is_reached(65535, ai, b);
        let g = srgb_greatest_code(65535, ai, b);
        lemma_reached_grows_with_a(g, ai, aj, b);
        lemma_greatest_at_least(65535, g, aj, b);
    } else {
        // i on the linear segment, j past it.
        let num = 13107000 * i + 1292 * m;
        let den = 2584 * m;
        let q = num / den;
        assert(q * den <= num) by (nonlinear_arith)
            requires
                q == num / den,
                den > 0,
        ;
        assert(q <= 205) by (nonlinear_arith)
            requires
                q * den <= num,
                100000 * i <= 4045 * m,
                num == 13107000 * i + 1292 * m,
                den == 2584 * m,
                m > 0,
        ;
        let aj = 1000 * j + 55 * m;
        lemma_power_segment_reaches_205(aj, m);
        lemma_greatest_at_least(65535, 205, aj, 1055 * m);
    }
}

/// The table runs from black to full scale: its first entry is 0 and, with at
/// least two entries, its last is 65535.
pub proof fn lemma_degamma_endpoints(size: nat)
    requires
        size >= 1,
    ensures
        srgb_degamma_entry(0, size) == 0,
        size >= 2 ==> srgb_degamma_entry((size - 1) as nat, size) == 65535,
{
    if size >= 2 {
        let m = (size - 1) as nat;
        let b = 1055 * m;
        assert(1000 * m + 55 * m == b);
        lemma_pow_nat_monotone(131069, 131070, 5);
        let p1 = pow_nat(131069, 5);
        let p2 = pow_nat(131070, 5);
        let pb = pow_nat(b, 12);
        assert(p1 * pb <= p2 * pb) by (nonlinear_arith)
            requires
                p1 <= p2,
        ;
        assert(((2 * 65535 - 1) as nat) == 131069);
        assert(srgb_code_reached(65535, b, b));
        assert((13107000 * 0 + 1292 * m) / (2584 * m) == 0) by (nonlinear_arith)
            requires
                m > 0,
        ;
    }
}

/// Generate an sRGB EOTF (degamma) lookup table for the CRTC DEGAMMA_LUT property.
///
/// Each entry maps a normalized sRGB value to linear light using the sRGB transfer function.
/// Output format: `[red, green, blue, reserved]` with values in `[0, 65535]`.
pub fn generate_srgb_degamma_lut(size: u32) -> (lut: Vec<[u16; 4]>)
    ensures
        lut.len() == size,
        forall|i: int|
            0 <= i < size ==> {
                let v = srgb_degamma_entry(i as nat, size as nat);
                &&& (#[trigger] lut[i])[0] == v
                &&& lut[i][1] == v
                &&& lut[i][2] == v
                &&& lut[i][3] == 0
            },
{
    let mut lut: Vec<[u16; 4]> = Vec::new();
    let mut i: u32 = 0;
    while i < size
        invariant
            i <= size,
            lut.len() == i,
            forall|j: int|
                0 <= j < i ==> {
                    let v = srgb_degamma_entry(j as nat, size as nat);
                    &&& (#[trigger] lut[j])[0] == v
                    &&& lut[j][1] == v
                    &&& lut[j][2] == v
                    &&& lut[j][3] == 0
                },
        decreases size - i,
    {
        let val = srgb_degamma_code(i, size);
        lut.push([val, val, val, 0]);
        i += 1;
    }
    lut
}

} // verus!
