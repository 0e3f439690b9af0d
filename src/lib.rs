//! Tempo and pitch transform for interleaved PCM audio.
//!
//! The sample type is left generic: every index, length and layout decision
//! is made here and proved, while the arithmetic on sample values is handed
//! in by the caller as an interpolation function.

mod error;
mod formats;
mod frames;
mod pcm;
mod ratio;
mod resample;
mod session;

pub use error::AudioError;

pub use ratio::{lemma_faster_tempo_is_shorter, output_frames, Ratio};
pub use frames::{
    channel_of, deinterleave, deinterleaved, frame_count, interleave, interleaved, views,
    lemma_deinterleave_interleave, lemma_interleave_round_trip,
};
pub use resample::{
    lemma_source_in_range, resample_channel, resample_interleaved, resampled_from, sample_matches, source_frac,
    source_index,
};
pub use pcm::{decode_words, encode_words, le_word, lemma_pcm_round_trip, word_byte};
pub use session::Session;
pub use formats::{equal_ignoring_case, fold_case, is_supported_extension, supported_extension};
