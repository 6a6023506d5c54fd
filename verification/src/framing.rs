use vstd::prelude::*;
use vstd::arithmetic::div_mod::lemma_div_is_ordered_by_denominator;
use vstd::arithmetic::div_mod::lemma_fundamental_div_mod;
use vstd::arithmetic::mul::lemma_mul_inequality;
use crate::error::PipelineError;

verus! {

/// Default transform length: 2048 samples per frame.
pub const DEFAULT_FFT_SIZE: usize = 2048;

/// `n` is a positive power of two.
pub open spec fn spec_is_power_of_two(n: int) -> bool
    decreases n,
{
    if n <= 0 {
        false
    } else if n == 1 {
        true
    } else {
        n % 2 == 0 && spec_is_power_of_two(n / 2)
    }
}

/// How many full frames fit: frame `k` starts at `k * hop_size` and is
/// emitted only when all `fft_size` samples are available, so trailing
/// samples that do not fill a whole frame are dropped.
pub open spec fn spec_frame_count(num_samples: int, fft_size: int, hop_size: int) -> int {
    (num_samples - fft_size) / hop_size + 1
}

/// Bins of a real-valued transform of `fft_size` samples.
pub open spec fn spec_bin_count(fft_size: int) -> int {
    fft_size / 2 + 1
}

/// Decides whether `n` is a positive power of two.
pub fn is_power_of_two(n: usize) -> (b: bool)
    ensures
        b == spec_is_power_of_two(n as int),
{
    if n == 0 {
        return false;
    }
    let mut m: usize = n;
    while m % 2 == 0
        invariant
            1 <= m,
            spec_is_power_of_two(n as int) == spec_is_power_of_two(m as int),
        decreases m,
    {
        m = m / 2;
    }
    m == 1
}

/// The geometry of one short-time transform run over a mono buffer: frame
/// `k` covers samples `k * hop_size .. k * hop_size + fft_size`, and every
/// frame yields `num_bins` magnitudes.
pub struct StftPlan {
    pub num_samples: usize,
    pub fft_size: usize,
    pub hop_size: usize,
    pub num_frames: usize,
    pub num_bins: usize,
}

impl StftPlan {
    /// The derived fields agree with the configuration.
    pub open spec fn wf(&self) -> bool {
        &&& spec_is_power_of_two(self.fft_size as int)
        &&& self.hop_size >= 1
        &&& self.fft_size <= self.num_samples
        &&& self.num_frames == spec_frame_count(
            self.num_samples as int,
            self.fft_size as int,
            self.hop_size as int,
        )
        &&& self.num_bins == spec_bin_count(self.fft_size as int)
    }

    /// Sample index at which frame `k` starts; the whole frame lies inside
    /// the buffer.
    pub fn frame_start(&self, k: usize) -> (start: usize)
        requires
            self.wf(),
            k < self.num_frames,
        ensures
            start == k * self.hop_size,
            start + self.fft_size <= self.num_samples,
    {
        proof {
            let s = self.num_samples as int;
            let f = self.fft_size as int;
            let h = self.hop_size as int;
            lemma_mul_inequality(k as int, (s - f) / h, h);
            lemma_fundamental_div_mod(s - f, h);
        }
        k * self.hop_size
    }
}

/// Validates the configuration against the mono buffer length and fixes the
/// frame layout, before any sample is touched: a `fft_size` that is not a
/// positive power of two is refused as `InvalidFftSize`, and a buffer
/// shorter than one frame as `InsufficientSamples`.
pub fn plan_stft(num_samples: usize, fft_size: usize, hop_size: usize) -> (r: Result<
    StftPlan,
    PipelineError,
>)
    requires
        hop_size >= 1,
    ensures
        r is Ok <==> spec_is_power_of_two(fft_size as int) && num_samples >= fft_size,
        r matches Ok(p) ==> p.wf() && p.num_samples == num_samples && p.fft_size == fft_size
            && p.hop_size == hop_size,
        r matches Err(e) ==> (e is InvalidFftSize <==> !spec_is_power_of_two(fft_size as int))
            && (e is InsufficientSamples <==> spec_is_power_of_two(fft_size as int)
            && num_samples < fft_size),
{
    if !is_power_of_two(fft_size) {
        return Err(PipelineError::InvalidFftSize);
    }
    if num_samples < fft_size {
        return Err(PipelineError::InsufficientSamples);
    }
    proof {
        let x = (num_samples - fft_size) as int;
        lemma_div_is_ordered_by_denominator(x, 1, hop_size as int);
        lemma_div_is_ordered_by_denominator(fft_size as int, 1, 2);
    }
    let num_frames = (num_samples - fft_size) / hop_size + 1;
    let num_bins = fft_size / 2 + 1;
    Ok(StftPlan { num_samples, fft_size, hop_size, num_frames, num_bins })
}

/// The same validation with the default 50%-overlap hop of `fft_size / 2`.
/// A one-sample frame is excluded: its default hop would be empty and the
/// framing could never advance.
pub fn plan_stft_default_hop(num_samples: usize, fft_size: usize) -> (r: Result<
    StftPlan,
    PipelineError,
>)
    requires
        fft_size != 1,
    ensures
        r is Ok <==> spec_is_power_of_two(fft_size as int) && num_samples >= fft_size,
        r matches Ok(p) ==> p.wf() && p.num_samples == num_samples && p.fft_size == fft_size
            && p.hop_size == fft_size / 2,
        r matches Err(e) ==> (e is InvalidFftSize <==> !spec_is_power_of_two(fft_size as int))
            && (e is InsufficientSamples <==> spec_is_power_of_two(fft_size as int)
            && num_samples < fft_size),
{
    if !is_power_of_two(fft_size) {
        return Err(PipelineError::InvalidFftSize);
    }
    plan_stft(num_samples, fft_size, fft_size / 2)
}

} // verus!
