use vstd::prelude::*;
use vstd::arithmetic::div_mod::lemma_div_is_ordered;
use vstd::arithmetic::div_mod::lemma_fundamental_div_mod_converse;
use crate::colormap::SpectrogramColormap;
use crate::colormap::lemma_color_bounds;
use crate::colormap::map_intensity;
use crate::colormap::spec_color;
use crate::framing::StftPlan;

verus! {

/// A finished image: row-major RGBA bytes, four per pixel, alpha always 255.
pub struct PixelImage {
    pub width: usize,
    pub height: usize,
    pub pixels: Vec<u8>,
}

impl PixelImage {
    /// The byte buffer covers exactly `width * height` pixels.
    pub open spec fn wf(&self) -> bool {
        self.pixels@.len() == self.width * self.height * 4
    }
}

/// Every frame of the spectrogram has the same number of bins.
pub open spec fn is_rectangular(s: Seq<Seq<u32>>) -> bool {
    forall|i: int| 0 <= i < s.len() ==> (#[trigger] s[i]).len() == s[0].len()
}

/// Channel `ch` of the mathematical color `m`.
pub open spec fn spec_component(m: (int, int, int), ch: int) -> int {
    if ch == 0 {
        m.0
    } else if ch == 1 {
        m.1
    } else {
        m.2
    }
}

/// Byte `i` of the assembled image of spectrogram `s` under palette `cm`:
/// pixel column `x` shows frame `x`, pixel row `row` shows bin
/// `height - 1 - row` (the frequency axis is inverted, so the lowest bin
/// renders at the bottom row), and every fourth byte is the opaque alpha.
pub open spec fn spec_pixel_byte(s: Seq<Seq<u32>>, cm: SpectrogramColormap, i: int) -> int {
    let w = s.len() as int;
    let h = s[0].len() as int;
    let p = i / 4;
    let ch = i % 4;
    let row = p / w;
    let x = p % w;
    let y = h - 1 - row;
    if ch == 3 {
        255
    } else {
        spec_component(spec_color(cm, s[x][y] as int), ch)
    }
}

/// The whole RGBA buffer of the assembled image.
pub open spec fn spec_image_bytes(s: Seq<Seq<u32>>, cm: SpectrogramColormap) -> Seq<u8> {
    Seq::new(s.len() * s[0].len() * 4, |i: int| spec_pixel_byte(s, cm, i) as u8)
}

/// Splitting a byte index back into its pixel coordinates and channel.
proof fn lemma_pixel_index_decomp(w: int, x: int, row: int, ch: int)
    requires
        1 <= w,
        0 <= x < w,
        0 <= row,
        0 <= ch < 4,
    ensures
        ((row * w + x) * 4 + ch) / 4 == row * w + x,
        ((row * w + x) * 4 + ch) % 4 == ch,
        (row * w + x) / w == row,
        (row * w + x) % w == x,
{
    lemma_fundamental_div_mod_converse(row * w + x, w, row, x);
    lemma_fundamental_div_mod_converse((row * w + x) * 4 + ch, 4, row * w + x, ch);
}

/// The byte at channel `ch` of pixel (`x`, `row`) shows bin
/// `height - 1 - row` of frame `x`: row 0 is the highest frequency bin and
/// the last row is bin 0.
pub proof fn lemma_pixel_shows_bin(
    s: Seq<Seq<u32>>,
    cm: SpectrogramColormap,
    x: int,
    row: int,
    ch: int,
)
    requires
        s.len() >= 1,
        is_rectangular(s),
        0 <= x < s.len(),
        0 <= row < s[0].len(),
        0 <= ch < 4,
    ensures
        spec_image_bytes(s, cm)[(row * s.len() + x) * 4 + ch] == (if ch == 3 {
            255int
        } else {
            spec_component(spec_color(cm, s[x][s[0].len() - 1 - row] as int), ch)
        }),
{
    let w = s.len() as int;
    let h = s[0].len() as int;
    lemma_pixel_index_decomp(w, x, row, ch);
    assert((row * w + x) * 4 + ch < w * h * 4) by (nonlinear_arith)
        requires
            0 <= x < w,
            0 <= row < h,
            0 <= ch < 4,
    ;
    if ch != 3 {
        lemma_color_bounds(cm, s[x][s[0].len() - 1 - row] as int);
    }
}

/// Assembling the same spectrogram with the same palette twice yields
/// byte-identical images: the pipeline is deterministic.
pub proof fn lemma_assembly_deterministic(
    a: PixelImage,
    b: PixelImage,
    s: Seq<Seq<u32>>,
    cm: SpectrogramColormap,
)
    requires
        a.pixels@ == spec_image_bytes(s, cm),
        b.pixels@ == spec_image_bytes(s, cm),
    ensures
        a.pixels@ == b.pixels@,
{
}

/// Lays the per-frame, per-bin colors out into a row-major RGBA buffer with
/// the frequency axis inverted, so the lowest frequency bin renders at the
/// bottom row. Alpha is always 255.
pub fn spectrogram_to_image(spectrogram: &Vec<Vec<u32>>, colormap: SpectrogramColormap) -> (img:
    PixelImage)
    requires
        spectrogram@.len() >= 1,
        is_rectangular(spectrogram.deep_view()),
    ensures
        img.width == spectrogram@.len(),
        img.height == spectrogram@[0]@.len(),
        img.wf(),
        img.pixels@ == spec_image_bytes(spectrogram.deep_view(), colormap),
{
    let ghost sv = spectrogram.deep_view();
    proof {
        assert(sv.len() == spectrogram@.len());
        assert(forall|i: int|
            0 <= i < sv.len() ==> (#[trigger] sv[i]) =~= spectrogram@[i]@);
    }
    let width = spectrogram.len();
    let height = spectrogram[0].len();
    let mut pixels: Vec<u8> = Vec::new();
    let mut row: usize = 0;
    while row < height
        invariant
            sv == spectrogram.deep_view(),
            width == sv.len(),
            height == sv[0].len(),
            width >= 1,
            is_rectangular(sv),
            forall|i: int| 0 <= i < sv.len() ==> (#[trigger] sv[i]) == spectrogram@[i]@,
            row <= height,
            pixels@.len() == row * width * 4,
            forall|j: int|
                0 <= j < pixels@.len() ==> pixels@[j] == spec_pixel_byte(sv, colormap, j) as u8,
        decreases height - row,
    {
        let y = height - 1 - row;
        let mut x: usize = 0;
        while x < width
            invariant
                sv == spectrogram.deep_view(),
                width == sv.len(),
                height == sv[0].len(),
                width >= 1,
                is_rectangular(sv),
                forall|i: int| 0 <= i < sv.len() ==> (#[trigger] sv[i]) == spectrogram@[i]@,
                row < height,
                y == height - 1 - row,
                x <= width,
                pixels@.len() == (row * width + x) * 4,
                forall|j: int|
                    0 <= j < pixels@.len() ==> pixels@[j] == spec_pixel_byte(sv, colormap, j)
                        as u8,
            decreases width - x,
        {
            proof {
                assert(sv[x as int].len() == sv[0].len());
            }
            let value = spectrogram[x][y];
            let c = map_intensity(colormap, value);
            proof {
                lemma_pixel_index_decomp(width as int, x as int, row as int, 0);
                lemma_pixel_index_decomp(width as int, x as int, row as int, 1);
                lemma_pixel_index_decomp(width as int, x as int, row as int, 2);
                lemma_pixel_index_decomp(width as int, x as int, row as int, 3);
                lemma_color_bounds(colormap, value as int);
                assert(value == sv[x as int][y as int]);
            }
            pixels.push(c.r);
            pixels.push(c.g);
            pixels.push(c.b);
            pixels.push(255);
            x = x + 1;
        }
        proof {
            assert((row + 1) * width == row * width + width) by (nonlinear_arith);
        }
        row = row + 1;
    }
    proof {
        assert(pixels@.len() == height * width * 4);
        assert(pixels@ =~= spec_image_bytes(sv, colormap));
    }
    PixelImage { width, height, pixels }
}

/// The post-transform half of the pipeline: checks that the quantized
/// spectrogram has the planned layout and assembles the image, which is then
/// exactly `plan.num_frames` columns wide and `plan.num_bins` rows high.
pub fn render_planned_spectrogram(
    plan: &StftPlan,
    values: &Vec<Vec<u32>>,
    colormap: SpectrogramColormap,
) -> (r: Option<PixelImage>)
    requires
        plan.wf(),
    ensures
        r is Some <==> values@.len() == plan.num_frames && (forall|i: int|
            0 <= i < values@.len() ==> (#[trigger] values@[i])@.len() == plan.num_bins),
        r matches Some(img) ==> img.width == plan.num_frames && img.height == plan.num_bins
            && img.wf() && img.pixels@ == spec_image_bytes(values.deep_view(), colormap),
{
    proof {
        let s = plan.num_samples as int;
        let f = plan.fft_size as int;
        let h = plan.hop_size as int;
        lemma_div_is_ordered(0, s - f, h);
    }
    if values.len() != plan.num_frames {
        return None;
    }
    let mut i: usize = 0;
    while i < values.len()
        invariant
            i <= values@.len(),
            forall|j: int| 0 <= j < i ==> (#[trigger] values@[j])@.len() == plan.num_bins,
        decreases values@.len() - i,
    {
        if values[i].len() != plan.num_bins {
            assert(values@[i as int]@.len() != plan.num_bins);
            return None;
        }
        i = i + 1;
    }
    proof {
        assert(forall|j: int|
            0 <= j < values.deep_view().len() ==> (#[trigger] values.deep_view()[j])
                =~= values@[j]@);
        assert(is_rectangular(values.deep_view()));
    }
    Some(spectrogram_to_image(values, colormap))
}

} // verus!
