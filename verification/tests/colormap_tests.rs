use spectrogram::colormap::INTENSITY_SCALE;
use spectrogram::colormap::Rgb;
use spectrogram::colormap::SpectrogramColormap;
use spectrogram::colormap::blue_to_red_colormap;
use spectrogram::colormap::grayscale_colormap;
use spectrogram::colormap::inferno_colormap;
use spectrogram::colormap::magma_colormap;
use spectrogram::colormap::map_intensity;
use spectrogram::colormap::viridis_colormap;

fn rgb(r: u8, g: u8, b: u8) -> Rgb {
    Rgb { r, g, b }
}

#[test]
fn grayscale_extremes() {
    assert_eq!(grayscale_colormap(0), rgb(0, 0, 0));
    assert_eq!(grayscale_colormap(INTENSITY_SCALE), rgb(255, 255, 255));
}

#[test]
fn blue_to_red_extremes() {
    assert_eq!(blue_to_red_colormap(0), rgb(0, 0, 255));
    assert_eq!(blue_to_red_colormap(INTENSITY_SCALE), rgb(255, 0, 0));
}

#[test]
fn segmented_palette_endpoints() {
    assert_eq!(viridis_colormap(0), rgb(68, 1, 84));
    assert_eq!(viridis_colormap(INTENSITY_SCALE), rgb(253, 231, 37));
    assert_eq!(magma_colormap(0), rgb(0, 0, 0));
    assert_eq!(magma_colormap(INTENSITY_SCALE), rgb(253, 231, 240));
    assert_eq!(inferno_colormap(0), rgb(0, 0, 0));
    assert_eq!(inferno_colormap(INTENSITY_SCALE), rgb(252, 255, 164));
}

#[test]
fn segment_boundaries_meet_anchors() {
    // At each interior boundary the palette value is exactly the anchor color.
    let quarter = INTENSITY_SCALE / 4;
    assert_eq!(viridis_colormap(quarter), rgb(33, 144, 140));
    assert_eq!(viridis_colormap(2 * quarter), rgb(73, 211, 121));
    assert_eq!(viridis_colormap(3 * quarter), rgb(190, 206, 86));
    assert_eq!(magma_colormap(quarter), rgb(88, 24, 69));
    assert_eq!(magma_colormap(2 * quarter), rgb(188, 80, 144));
    assert_eq!(magma_colormap(3 * quarter), rgb(249, 163, 137));
    assert_eq!(inferno_colormap(quarter), rgb(73, 11, 68));
    assert_eq!(inferno_colormap(2 * quarter), rgb(184, 71, 55));
    assert_eq!(inferno_colormap(3 * quarter), rgb(253, 173, 47));
}

#[test]
fn viridis_segment_midpoint_is_truncated_mean() {
    // Halfway into the first segment each channel is the floored mean of the
    // two anchors: (68+33)/2 -> 50, (1+144)/2 -> 72, (84+140)/2 -> 112.
    assert_eq!(viridis_colormap(INTENSITY_SCALE / 8), rgb(50, 72, 112));
}

#[test]
fn grayscale_midpoint_is_truncated() {
    // 32768 * 255 / 65536 = 127.5, truncated to 127.
    assert_eq!(grayscale_colormap(INTENSITY_SCALE / 2), rgb(127, 127, 127));
}

#[test]
fn intensities_above_full_scale_clamp() {
    assert_eq!(grayscale_colormap(1_000_000), rgb(255, 255, 255));
    assert_eq!(viridis_colormap(70_000), viridis_colormap(INTENSITY_SCALE));
    assert_eq!(blue_to_red_colormap(u32::MAX), rgb(255, 0, 0));
}

#[test]
fn map_intensity_dispatches_by_palette() {
    let v = 12345u32;
    assert_eq!(map_intensity(SpectrogramColormap::Viridis, v), viridis_colormap(v));
    assert_eq!(map_intensity(SpectrogramColormap::Magma, v), magma_colormap(v));
    assert_eq!(map_intensity(SpectrogramColormap::Inferno, v), inferno_colormap(v));
    assert_eq!(map_intensity(SpectrogramColormap::Grayscale, v), grayscale_colormap(v));
    assert_eq!(map_intensity(SpectrogramColormap::BlueToRed, v), blue_to_red_colormap(v));
}
