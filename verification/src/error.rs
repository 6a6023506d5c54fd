use vstd::prelude::*;

verus! {

broadcast use vstd::string::to_string_from_display_ensures_for_str;

/// The ways the spectrogram pipeline can fail. Every failure is recoverable
/// at the caller; no stage after the first failing one is run.
#[derive(Debug, PartialEq, Eq)]
pub enum PipelineError {
    /// The audio-decoding collaborator could not produce a sample buffer;
    /// carries the collaborator's own description.
    DecodeError(String),
    /// The channel sequences of the decoded buffer differ in length.
    ChannelMismatch,
    /// The requested FFT size is not a positive power of two.
    InvalidFftSize,
    /// The mono buffer holds fewer samples than one FFT frame.
    InsufficientSamples,
}

impl PipelineError {
    /// A human-readable description of the failure.
    pub fn message(&self) -> (m: String)
        ensures
            self matches PipelineError::DecodeError(s) ==> m@ == s@,
            self is ChannelMismatch ==> m@ == "channel sample sequences differ in length"@,
            self is InvalidFftSize ==> m@ == "FFT size must be a positive power of two"@,
            self is InsufficientSamples ==> m@ == "buffer holds fewer samples than one FFT frame"@,
    {
        match self {
            PipelineError::DecodeError(s) => s.clone(),
            PipelineError::ChannelMismatch => "channel sample sequences differ in length".to_string(),
            PipelineError::InvalidFftSize => "FFT size must be a positive power of two".to_string(),
            PipelineError::InsufficientSamples => "buffer holds fewer samples than one FFT frame".to_string(),
        }
    }
}

} // verus!
