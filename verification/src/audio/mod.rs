//! The audio conversion adapter: the per-provider conversion targets, the
//! encoder invocation layout, and the classified conversion errors.

use vstd::prelude::*;

pub mod convert;

pub use convert::{conversion_target, ffmpeg_args, get_file_extension, make_converted_audio,
    ConversionTarget, ConvertedAudio};

verus! {

/// Failures of the audio conversion adapter. The encoder being absent and
/// the encoder exiting nonzero are the two failure modes the adapter must
/// surface; file-system trouble around the temporary files is carried as a
/// message.
#[derive(Debug, Clone, PartialEq, Eq)]
pub enum AudioError {
    UnsupportedFormat(String),
    ConversionFailed(String),
    FfmpegNotFound,
    Io(String),
    TempFile(String),
}

} // verus!
