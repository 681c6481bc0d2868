//! The closed set of errors the engine can report.

use vstd::prelude::*;

verus! {

/// Everything that can go wrong while building or running a transcription
/// session. Setup errors are surfaced to the caller before any audio is
/// processed; per-iteration decoder and detector errors end the session.
#[derive(Debug)]
pub enum RibbleWhisperError {
    /// A builder is missing a required field, or a capacity or sample rate
    /// works out to zero.
    ParameterError(String),
    /// The model retriever found nothing for the requested model id.
    ModelNotFound(String),
    /// The acoustic model context could not be constructed.
    ModelLoadFailed(String),
    /// The acoustic model reported an error on a decode window.
    DecoderFailed(String),
    /// The voice activity detector failed on a slice.
    VadError(String),
    /// The snapshot consumer is gone.
    ChannelClosed(String),
}

impl RibbleWhisperError {
    /// The human-readable text carried by the error.
    pub fn message(&self) -> (r: &str)
        ensures
            r@ == self.message_spec(),
    {
        match self {
            RibbleWhisperError::ParameterError(m) => m.as_str(),
            RibbleWhisperError::ModelNotFound(m) => m.as_str(),
            RibbleWhisperError::ModelLoadFailed(m) => m.as_str(),
            RibbleWhisperError::DecoderFailed(m) => m.as_str(),
            RibbleWhisperError::VadError(m) => m.as_str(),
            RibbleWhisperError::ChannelClosed(m) => m.as_str(),
        }
    }

    /// The text carried by the error, whichever variant holds it.
    pub open spec fn message_spec(&self) -> Seq<char> {
        match self {
            RibbleWhisperError::ParameterError(m) => m@,
            RibbleWhisperError::ModelNotFound(m) => m@,
            RibbleWhisperError::ModelLoadFailed(m) => m@,
            RibbleWhisperError::DecoderFailed(m) => m@,
            RibbleWhisperError::VadError(m) => m@,
            RibbleWhisperError::ChannelClosed(m) => m@,
        }
    }
}

} // verus!
