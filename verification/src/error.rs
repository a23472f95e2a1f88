use vstd::prelude::*;

verus! {

/// The error taxonomy of the novelty pipeline.
///
/// `InvalidParameter`, `ConvolutionError` and `EmptyMax` can come out of the
/// engine itself; `UnsupportedInput` and `OutputExists` belong to the
/// surrounding collaborators (audio loading and output pre-flight checks),
/// which share this taxonomy but run outside the engine.
#[derive(Clone, Copy, Debug, PartialEq, Eq, Structural)]
pub enum NoveltyError {
    /// A window length, hop length or sample rate of zero, or an empty signal.
    InvalidParameter,
    /// The input waveform is not mono (raised before the engine runs).
    UnsupportedInput,
    /// The convolution primitive failed, or broke its same-length contract.
    ConvolutionError,
    /// The maximum primitive found no maximum during normalization.
    EmptyMax,
    /// The output target already exists (raised before the engine runs).
    OutputExists,
}

impl NoveltyError {
    /// A short description of the error, for reporting at the boundary.
    pub fn describe(&self) -> (r: &'static str)
        ensures
            r@ == (match self {
                NoveltyError::InvalidParameter => "window length, hop length and sample rate must be positive and the signal non-empty"@,
                NoveltyError::UnsupportedInput => "only mono input is supported"@,
                NoveltyError::ConvolutionError => "the convolution primitive could not process the given shapes"@,
                NoveltyError::EmptyMax => "no maximum was found while normalizing"@,
                NoveltyError::OutputExists => "the output path must not already exist"@,
            }),
    {
        match self {
            NoveltyError::InvalidParameter => "window length, hop length and sample rate must be positive and the signal non-empty",
            NoveltyError::UnsupportedInput => "only mono input is supported",
            NoveltyError::ConvolutionError => "the convolution primitive could not process the given shapes",
            NoveltyError::EmptyMax => "no maximum was found while normalizing",
            NoveltyError::OutputExists => "the output path must not already exist",
        }
    }
}

} // verus!
