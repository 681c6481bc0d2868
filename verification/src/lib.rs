//! Core streaming transcription engine: a bounded circular audio window, a
//! voice-gated decode scheduler, and a segment reconciler that merges
//! overlapping decoder outputs into an incrementally growing transcript.

use vstd::prelude::*;

pub mod audio_ring_buffer;
pub mod error;
pub mod reconcile;
pub mod scheduler;
pub mod text;
pub mod transcriber;

verus! {

/// Samples per second expected by the acoustic model.
pub const WHISPER_SAMPLE_RATE: usize = 16000;

} // verus!
