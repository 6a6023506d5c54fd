use vstd::prelude::*;
use vstd::arithmetic::div_mod::lemma_div_is_ordered;
use vstd::arithmetic::div_mod::lemma_div_multiples_vanish;

verus! {

/// Fixed-point scale of an intensity value: `INTENSITY_SCALE` stands for 1.0.
/// A spectrogram cell handed to the color stage is an intensity in
/// `INTENSITY_SCALE`ths of full scale.
pub const INTENSITY_SCALE: u32 = 65536;

/// Width of one palette segment: a quarter of the unit intensity range.
pub const SEGMENT_WIDTH: u32 = 16384;

/// Selects the palette used to paint spectrogram intensities.
#[derive(Debug, Clone, Copy, PartialEq, Eq, Structural)]
pub enum SpectrogramColormap {
    Viridis,
    Magma,
    Inferno,
    Grayscale,
    BlueToRed,
}

impl Default for SpectrogramColormap {
    /// The palette used when none is chosen.
    fn default() -> (c: Self)
        ensures
            c is Viridis,
    {
        SpectrogramColormap::Viridis
    }
}

/// One 8-bit RGB color.
#[derive(Debug, Clone, Copy, PartialEq, Eq, Structural)]
pub struct Rgb {
    pub r: u8,
    pub g: u8,
    pub b: u8,
}

/// Intensities outside the unit range are pulled back onto it.
pub open spec fn clamp_intensity(v: int) -> int {
    if v < 0 {
        0
    } else if v > INTENSITY_SCALE {
        INTENSITY_SCALE as int
    } else {
        v
    }
}

/// Exact linear interpolation between channel values `c0` and `c1` at
/// segment-local offset `d` out of `SEGMENT_WIDTH`, truncated to an integer.
pub open spec fn lerp_channel(c0: int, c1: int, d: int) -> int {
    (c0 * (SEGMENT_WIDTH - d) + c1 * d) / (SEGMENT_WIDTH as int)
}

/// Componentwise interpolation between two anchor colors.
pub open spec fn lerp_color(a0: (int, int, int), a1: (int, int, int), d: int) -> (int, int, int) {
    (
        lerp_channel(a0.0, a1.0, d),
        lerp_channel(a0.1, a1.1, d),
        lerp_channel(a0.2, a1.2, d),
    )
}

/// The palettes that are built from a five-anchor segment table.
pub open spec fn is_segmented(cm: SpectrogramColormap) -> bool {
    cm is Viridis || cm is Magma || cm is Inferno
}

/// Anchor colors of the segmented palettes at intensities 0, 1/4, 1/2, 3/4 and 1.
pub open spec fn spec_anchor(cm: SpectrogramColormap, i: int) -> (int, int, int) {
    match cm {
        SpectrogramColormap::Viridis => if i <= 0 {
            (68, 1, 84)
        } else if i == 1 {
            (33, 144, 140)
        } else if i == 2 {
            (73, 211, 121)
        } else if i == 3 {
            (190, 206, 86)
        } else {
            (253, 231, 37)
        },
        SpectrogramColormap::Magma => if i <= 0 {
            (0, 0, 0)
        } else if i == 1 {
            (88, 24, 69)
        } else if i == 2 {
            (188, 80, 144)
        } else if i == 3 {
            (249, 163, 137)
        } else {
            (253, 231, 240)
        },
        SpectrogramColormap::Inferno => if i <= 0 {
            (0, 0, 0)
        } else if i == 1 {
            (73, 11, 68)
        } else if i == 2 {
            (184, 71, 55)
        } else if i == 3 {
            (253, 173, 47)
        } else {
            (252, 255, 164)
        },
        _ => (0, 0, 0),
    }
}

/// Which quarter of the unit range a clamped intensity falls in; full scale
/// belongs to the topmost segment.
pub open spec fn spec_segment_index(v: int) -> int {
    if v < SEGMENT_WIDTH {
        0
    } else if v < 2 * SEGMENT_WIDTH {
        1
    } else if v < 3 * SEGMENT_WIDTH {
        2
    } else {
        3
    }
}

/// Color of a segmented palette at an already clamped intensity `v`.
pub open spec fn spec_segment_color(cm: SpectrogramColormap, v: int) -> (int, int, int) {
    let s = spec_segment_index(v);
    lerp_color(spec_anchor(cm, s), spec_anchor(cm, s + 1), v - s * SEGMENT_WIDTH)
}

/// The color a palette assigns to an intensity given in `INTENSITY_SCALE`ths
/// of full scale, after the defensive clamp onto the unit range.
pub open spec fn spec_color(cm: SpectrogramColormap, v0: int) -> (int, int, int) {
    let v = clamp_intensity(v0);
    match cm {
        SpectrogramColormap::Grayscale => (
            v * 255 / (INTENSITY_SCALE as int),
            v * 255 / (INTENSITY_SCALE as int),
            v * 255 / (INTENSITY_SCALE as int),
        ),
        SpectrogramColormap::BlueToRed => (
            v * 255 / (INTENSITY_SCALE as int),
            0,
            (INTENSITY_SCALE - v) * 255 / (INTENSITY_SCALE as int),
        ),
        _ => spec_segment_color(cm, v),
    }
}

/// `c` is the 8-bit form of the mathematical color `m`.
pub open spec fn rgb_matches(c: Rgb, m: (int, int, int)) -> bool {
    c.r == m.0 && c.g == m.1 && c.b == m.2
}

/// Interpolated channel values never leave the 8-bit range.
pub proof fn lemma_lerp_channel_bounds(c0: int, c1: int, d: int)
    requires
        0 <= c0 <= 255,
        0 <= c1 <= 255,
        0 <= d <= SEGMENT_WIDTH,
    ensures
        0 <= lerp_channel(c0, c1, d) <= 255,
{
    let num = c0 * (16384 - d) + c1 * d;
    assert(0 <= c0 * (16384 - d) + c1 * d && c0 * (16384 - d) + c1 * d <= 255 * 16384)
        by (nonlinear_arith)
        requires
            0 <= c0 <= 255,
            0 <= c1 <= 255,
            0 <= d <= 16384,
    ;
    lemma_div_is_ordered(0, num, 16384);
    lemma_div_is_ordered(num, 255int * 16384, 16384);
    assert(lerp_channel(c0, c1, d) == num / 16384);
}

/// Every palette yields channel values in the 8-bit range.
pub proof fn lemma_color_bounds(cm: SpectrogramColormap, v0: int)
    ensures
        0 <= spec_color(cm, v0).0 <= 255,
        0 <= spec_color(cm, v0).1 <= 255,
        0 <= spec_color(cm, v0).2 <= 255,
{
    let v = clamp_intensity(v0);
    assert(0 <= v <= 65536);
    if cm is Grayscale || cm is BlueToRed {
        lemma_div_is_ordered(0, v * 255, 65536);
        lemma_div_is_ordered(v * 255, 65536int * 255, 65536);
        lemma_div_is_ordered(0, (65536 - v) * 255, 65536);
        lemma_div_is_ordered((65536 - v) * 255, 65536int * 255, 65536);
    } else {
        let s = spec_segment_index(v);
        let a0 = spec_anchor(cm, s);
        let a1 = spec_anchor(cm, s + 1);
        assert(0 <= a0.0 <= 255 && 0 <= a0.1 <= 255 && 0 <= a0.2 <= 255);
        assert(0 <= a1.0 <= 255 && 0 <= a1.1 <= 255 && 0 <= a1.2 <= 255);
        assert(0 <= v - s * SEGMENT_WIDTH <= SEGMENT_WIDTH);
        lemma_lerp_channel_bounds(a0.0, a1.0, v - s * SEGMENT_WIDTH);
        lemma_lerp_channel_bounds(a0.1, a1.1, v - s * SEGMENT_WIDTH);
        lemma_lerp_channel_bounds(a0.2, a1.2, v - s * SEGMENT_WIDTH);
    }
}

/// The segment tables are continuous: interpolating to the very top of the
/// segment below an anchor reproduces that anchor exactly, and the palette
/// value at each interior boundary intensity is the anchor itself.
pub proof fn lemma_segment_boundary_continuity(cm: SpectrogramColormap, b: int)
    requires
        is_segmented(cm),
        1 <= b <= 4,
    ensures
        lerp_color(spec_anchor(cm, b - 1), spec_anchor(cm, b), SEGMENT_WIDTH as int)
            == spec_anchor(cm, b),
        1 <= b <= 3 ==> spec_color(cm, b * (SEGMENT_WIDTH as int)) == spec_anchor(cm, b),
{
    let a0 = spec_anchor(cm, b - 1);
    let a1 = spec_anchor(cm, b);
    lemma_div_multiples_vanish(a1.0, 16384);
    lemma_div_multiples_vanish(a1.1, 16384);
    lemma_div_multiples_vanish(a1.2, 16384);
    assert(lerp_channel(a0.0, a1.0, 16384) == (16384 * a1.0) / 16384);
    assert(lerp_channel(a0.1, a1.1, 16384) == (16384 * a1.1) / 16384);
    assert(lerp_channel(a0.2, a1.2, 16384) == (16384 * a1.2) / 16384);
    if 1 <= b <= 3 {
        let v = b * (SEGMENT_WIDTH as int);
        assert(clamp_intensity(v) == v);
        assert(spec_segment_index(v) == b);
        assert(v - b * SEGMENT_WIDTH == 0);
        lemma_div_multiples_vanish(a1.0, 16384);
        assert(lerp_channel(a1.0, spec_anchor(cm, b + 1).0, 0) == (16384 * a1.0) / 16384);
        assert(lerp_channel(a1.1, spec_anchor(cm, b + 1).1, 0) == (16384 * a1.1) / 16384);
        assert(lerp_channel(a1.2, spec_anchor(cm, b + 1).2, 0) == (16384 * a1.2) / 16384);
    }
}

/// Defensive clamp of a raw intensity onto the unit range.
fn clamp_intensity_exec(v: u32) -> (c: u32)
    ensures
        c as int == clamp_intensity(v as int),
{
    if v > INTENSITY_SCALE {
        INTENSITY_SCALE
    } else {
        v
    }
}

/// One interpolated 8-bit channel value.
fn lerp_channel_exec(c0: u8, c1: u8, d: u32) -> (r: u8)
    requires
        d <= SEGMENT_WIDTH,
    ensures
        r as int == lerp_channel(c0 as int, c1 as int, d as int),
{
    proof {
        lemma_lerp_channel_bounds(c0 as int, c1 as int, d as int);
        assert(0 <= (c0 as int) * (16384 - d) + (c1 as int) * (d as int) <= 255 * 16384)
            by (nonlinear_arith)
            requires
                c0 as int <= 255,
                c1 as int <= 255,
                0 <= d as int <= 16384,
        ;
    }
    let num: u32 = (c0 as u32) * (SEGMENT_WIDTH - d) + (c1 as u32) * d;
    let q: u32 = num / SEGMENT_WIDTH;
    q as u8
}

/// The anchor table of a segmented palette.
fn anchor_color(cm: SpectrogramColormap, i: usize) -> (a: Rgb)
    requires
        i <= 4,
    ensures
        rgb_matches(a, spec_anchor(cm, i as int)),
{
    match cm {
        SpectrogramColormap::Viridis => {
            if i == 0 {
                Rgb { r: 68, g: 1, b: 84 }
            } else if i == 1 {
                Rgb { r: 33, g: 144, b: 140 }
            } else if i == 2 {
                Rgb { r: 73, g: 211, b: 121 }
            } else if i == 3 {
                Rgb { r: 190, g: 206, b: 86 }
            } else {
                Rgb { r: 253, g: 231, b: 37 }
            }
        },
        SpectrogramColormap::Magma => {
            if i == 0 {
                Rgb { r: 0, g: 0, b: 0 }
            } else if i == 1 {
                Rgb { r: 88, g: 24, b: 69 }
            } else if i == 2 {
                Rgb { r: 188, g: 80, b: 144 }
            } else if i == 3 {
                Rgb { r: 249, g: 163, b: 137 }
            } else {
                Rgb { r: 253, g: 231, b: 240 }
            }
        },
        SpectrogramColormap::Inferno => {
            if i == 0 {
                Rgb { r: 0, g: 0, b: 0 }
            } else if i == 1 {
                Rgb { r: 73, g: 11, b: 68 }
            } else if i == 2 {
                Rgb { r: 184, g: 71, b: 55 }
            } else if i == 3 {
                Rgb { r: 253, g: 173, b: 47 }
            } else {
                Rgb { r: 252, g: 255, b: 164 }
            }
        },
        _ => Rgb { r: 0, g: 0, b: 0 },
    }
}

/// Shared piecewise-linear interpolation over a palette's anchor table.
fn segmented_color(cm: SpectrogramColormap, value: u32) -> (c: Rgb)
    requires
        is_segmented(cm),
    ensures
        rgb_matches(c, spec_color(cm, value as int)),
{
    let vc = clamp_intensity_exec(value);
    let (s, d): (usize, u32) = if vc < SEGMENT_WIDTH {
        (0, vc)
    } else if vc < 2 * SEGMENT_WIDTH {
        (1, vc - SEGMENT_WIDTH)
    } else if vc < 3 * SEGMENT_WIDTH {
        (2, vc - 2 * SEGMENT_WIDTH)
    } else {
        (3, vc - 3 * SEGMENT_WIDTH)
    };
    proof {
        assert(s as int == spec_segment_index(vc as int));
        assert(d as int == vc - (s as int) * (SEGMENT_WIDTH as int));
    }
    let a0 = anchor_color(cm, s);
    let a1 = anchor_color(cm, s + 1);
    Rgb {
        r: lerp_channel_exec(a0.r, a1.r, d),
        g: lerp_channel_exec(a0.g, a1.g, d),
        b: lerp_channel_exec(a0.b, a1.b, d),
    }
}

/// Maps an intensity through the Viridis palette.
pub fn viridis_colormap(value: u32) -> (c: Rgb)
    ensures
        rgb_matches(c, spec_color(SpectrogramColormap::Viridis, value as int)),
{
    segmented_color(SpectrogramColormap::Viridis, value)
}

/// Maps an intensity through the Magma palette.
pub fn magma_colormap(value: u32) -> (c: Rgb)
    ensures
        rgb_matches(c, spec_color(SpectrogramColormap::Magma, value as int)),
{
    segmented_color(SpectrogramColormap::Magma, value)
}

/// Maps an intensity through the Inferno palette.
pub fn inferno_colormap(value: u32) -> (c: Rgb)
    ensures
        rgb_matches(c, spec_color(SpectrogramColormap::Inferno, value as int)),
{
    segmented_color(SpectrogramColormap::Inferno, value)
}

/// Maps an intensity to a gray level: full scale is white, silence is black.
pub fn grayscale_colormap(value: u32) -> (c: Rgb)
    ensures
        rgb_matches(c, spec_color(SpectrogramColormap::Grayscale, value as int)),
{
    let vc = clamp_intensity_exec(value);
    proof {
        lemma_div_is_ordered(0, (vc as int) * 255, 65536);
        lemma_div_is_ordered((vc as int) * 255, 65536int * 255, 65536);
    }
    let g8: u32 = vc * 255 / INTENSITY_SCALE;
    Rgb { r: g8 as u8, g: g8 as u8, b: g8 as u8 }
}

/// Maps an intensity from pure blue at silence to pure red at full scale.
pub fn blue_to_red_colormap(value: u32) -> (c: Rgb)
    ensures
        rgb_matches(c, spec_color(SpectrogramColormap::BlueToRed, value as int)),
{
    let vc = clamp_intensity_exec(value);
    proof {
        lemma_div_is_ordered(0, (vc as int) * 255, 65536);
        lemma_div_is_ordered((vc as int) * 255, 65536int * 255, 65536);
        lemma_div_is_ordered(0, (65536 - vc as int) * 255, 65536);
        lemma_div_is_ordered((65536 - vc as int) * 255, 65536int * 255, 65536);
    }
    let r8: u32 = vc * 255 / INTENSITY_SCALE;
    let b8: u32 = (INTENSITY_SCALE - vc) * 255 / INTENSITY_SCALE;
    Rgb { r: r8 as u8, g: 0, b: b8 as u8 }
}

/// Maps one intensity through the selected palette.
pub fn map_intensity(cm: SpectrogramColormap, value: u32) -> (c: Rgb)
    ensures
        rgb_matches(c, spec_color(cm, value as int)),
{
    match cm {
        SpectrogramColormap::Viridis => viridis_colormap(value),
        SpectrogramColormap::Magma => magma_colormap(value),
        SpectrogramColormap::Inferno => inferno_colormap(value),
        SpectrogramColormap::Grayscale => grayscale_colormap(value),
        SpectrogramColormap::BlueToRed => blue_to_red_colormap(value),
    }
}

} // verus!
