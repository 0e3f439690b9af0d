use vstd::prelude::*;

verus! {

/// Errors that the transform core reports to its caller.
#[derive(Clone, Copy, Debug, PartialEq, Eq, Structural)]
pub enum AudioError {
    /// The decoded byte stream does not split into whole samples and frames.
    Decode,
    /// A resampling ratio that is not strictly positive.
    InvalidRatio,
    /// A sample buffer whose length is not a multiple of its channel count.
    MalformedAudio,
}

impl AudioError {
    /// A short human-readable description of the error.
    pub fn message(&self) -> (r: String) {
        match self {
            AudioError::Decode => String::from_str("invalid number of samples in decoded stream"),
            AudioError::InvalidRatio => String::from_str("resampling ratio must be positive"),
            AudioError::MalformedAudio => String::from_str(
                "sample count is not a multiple of the channel count",
            ),
        }
    }
}

} // verus!
