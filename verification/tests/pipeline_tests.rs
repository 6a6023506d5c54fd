use spectrogram::PipelineError;
use spectrogram::channels::check_channel_lengths;
use spectrogram::colormap::INTENSITY_SCALE;
use spectrogram::colormap::SpectrogramColormap;
use spectrogram::framing::DEFAULT_FFT_SIZE;
use spectrogram::framing::is_power_of_two;
use spectrogram::framing::plan_stft;
use spectrogram::framing::plan_stft_default_hop;
use spectrogram::render::spectrogram_to_image;

#[test]
fn power_of_two_detection() {
    assert!(is_power_of_two(1));
    assert!(is_power_of_two(2));
    assert!(is_power_of_two(1024));
    assert!(is_power_of_two(2048));
    assert!(!is_power_of_two(0));
    assert!(!is_power_of_two(3));
    assert!(!is_power_of_two(2047));
    assert!(!is_power_of_two(44100));
}

#[test]
fn plan_dimensions_one_second_at_44100() {
    // 44100 samples, fft 2048, hop 1024: floor((44100-2048)/1024)+1 = 42
    // frames and floor(2048/2)+1 = 1025 bins.
    let plan = plan_stft(44100, 2048, 1024).unwrap();
    assert_eq!(plan.num_frames, 42);
    assert_eq!(plan.num_bins, 1025);
    assert_eq!(plan.num_samples, 44100);
}

#[test]
fn default_hop_is_half_the_fft_size() {
    let plan = plan_stft_default_hop(44100, DEFAULT_FFT_SIZE).unwrap();
    assert_eq!(plan.fft_size, 2048);
    assert_eq!(plan.hop_size, 1024);
    assert_eq!(plan.num_frames, 42);
    assert_eq!(plan.num_bins, 1025);
}

#[test]
fn frame_starts_step_by_the_hop() {
    let plan = plan_stft(44100, 2048, 1024).unwrap();
    assert_eq!(plan.frame_start(0), 0);
    assert_eq!(plan.frame_start(1), 1024);
    assert_eq!(plan.frame_start(41), 41 * 1024);
    assert!(plan.frame_start(41) + plan.fft_size <= plan.num_samples);
}

#[test]
fn short_buffer_is_insufficient() {
    // 100 samples cannot fill one 2048-sample frame.
    let r = plan_stft(100, 2048, 1024);
    assert!(matches!(r, Err(PipelineError::InsufficientSamples)));
    let r = plan_stft_default_hop(100, 2048);
    assert!(matches!(r, Err(PipelineError::InsufficientSamples)));
}

#[test]
fn non_power_of_two_fft_size_is_invalid() {
    let r = plan_stft(44100, 2047, 1023);
    assert!(matches!(r, Err(PipelineError::InvalidFftSize)));
    let r = plan_stft_default_hop(44100, 2047);
    assert!(matches!(r, Err(PipelineError::InvalidFftSize)));
    let r = plan_stft(44100, 0, 1);
    assert!(matches!(r, Err(PipelineError::InvalidFftSize)));
}

#[test]
fn equal_channel_lengths_pass() {
    assert!(check_channel_lengths(&vec![44100, 44100]).is_ok());
    assert!(check_channel_lengths(&vec![5]).is_ok());
    assert!(check_channel_lengths(&vec![]).is_ok());
}

#[test]
fn unequal_channel_lengths_mismatch() {
    let r = check_channel_lengths(&vec![44100, 44099]);
    assert!(matches!(r, Err(PipelineError::ChannelMismatch)));
}

#[test]
fn error_messages_are_nonempty() {
    assert_eq!(
        PipelineError::DecodeError("unsupported format".to_string()).message(),
        "unsupported format"
    );
    assert!(!PipelineError::ChannelMismatch.message().is_empty());
    assert!(!PipelineError::InvalidFftSize.message().is_empty());
    assert!(!PipelineError::InsufficientSamples.message().is_empty());
}

#[test]
fn lowest_bin_renders_at_the_bottom_row() {
    // One frame with three bins: silence, half scale, full scale. Row 0 must
    // show the highest bin (full scale), the last row bin 0 (silence).
    let values = vec![vec![0u32, INTENSITY_SCALE / 2, INTENSITY_SCALE]];
    let img = spectrogram_to_image(&values, SpectrogramColormap::Grayscale);
    assert_eq!(img.width, 1);
    assert_eq!(img.height, 3);
    assert_eq!(
        img.pixels,
        vec![255, 255, 255, 255, 127, 127, 127, 255, 0, 0, 0, 255]
    );
}

#[test]
fn assembly_is_deterministic() {
    let values = vec![
        vec![0u32, 1000, 20000, 40000],
        vec![65536u32, 30000, 5, 0],
        vec![123u32, 456, 789, 101112],
    ];
    let a = spectrogram_to_image(&values, SpectrogramColormap::Viridis);
    let b = spectrogram_to_image(&values, SpectrogramColormap::Viridis);
    assert_eq!(a.width, b.width);
    assert_eq!(a.height, b.height);
    assert_eq!(a.pixels, b.pixels);
}

#[test]
fn alpha_is_always_opaque() {
    let values = vec![vec![0u32, 40000], vec![65000u32, 12000]];
    let img = spectrogram_to_image(&values, SpectrogramColormap::Magma);
    assert_eq!(img.pixels.len(), 2 * 2 * 4);
    for p in 0..4 {
        assert_eq!(img.pixels[p * 4 + 3], 255);
    }
}

#[test]
fn one_second_grayscale_scenario() {
    // The planned 42 x 1025 layout: one loudest cell at full scale renders as
    // pure white, silent cells as pure black, alpha opaque everywhere.
    let plan = plan_stft_default_hop(44100, 2048).unwrap();
    assert_eq!(plan.num_frames, 42);
    assert_eq!(plan.num_bins, 1025);
    let loud_frame = 7usize;
    let loud_bin = 100usize;
    let mut values = vec![vec![0u32; plan.num_bins]; plan.num_frames];
    values[loud_frame][loud_bin] = INTENSITY_SCALE;
    let img = spectrogram_to_image(&values, SpectrogramColormap::Grayscale);
    assert_eq!(img.width, 42);
    assert_eq!(img.height, 1025);
    assert_eq!(img.pixels.len(), 42 * 1025 * 4);
    let row = img.height - 1 - loud_bin;
    let base = (row * img.width + loud_frame) * 4;
    assert_eq!(&img.pixels[base..base + 4], &[255, 255, 255, 255]);
    // a silent cell in the same row and in the top row
    let other = (row * img.width + 0) * 4;
    assert_eq!(&img.pixels[other..other + 4], &[0, 0, 0, 255]);
    assert_eq!(&img.pixels[0..4], &[0, 0, 0, 255]);
}

#[test]
fn planned_rendering_checks_the_layout() {
    let plan = plan_stft(8, 4, 2).unwrap();
    assert_eq!(plan.num_frames, 3);
    assert_eq!(plan.num_bins, 3);
    let good = vec![vec![0u32, 1, 2], vec![3u32, 4, 5], vec![6u32, 7, 8]];
    let img = spectrogram::render::render_planned_spectrogram(
        &plan,
        &good,
        SpectrogramColormap::Inferno,
    )
    .unwrap();
    assert_eq!(img.width, 3);
    assert_eq!(img.height, 3);
    assert_eq!(img.pixels.len(), 36);
    // a frame too few, and a ragged frame, are both refused
    let short = vec![vec![0u32, 1, 2], vec![3u32, 4, 5]];
    assert!(
        spectrogram::render::render_planned_spectrogram(
            &plan,
            &short,
            SpectrogramColormap::Inferno
        )
        .is_none()
    );
    let ragged = vec![vec![0u32, 1, 2], vec![3u32, 4], vec![6u32, 7, 8]];
    assert!(
        spectrogram::render::render_planned_spectrogram(
            &plan,
            &ragged,
            SpectrogramColormap::Inferno
        )
        .is_none()
    );
}
