//! Behavior of the transcript data types and the error surface.

use ribble_whisper::error::RibbleWhisperError;
use ribble_whisper::transcriber::{
    RibbleWhisperSegment, TranscriptionSnapshot, WhisperControlPhrase, WhisperOutput,
};

#[test]
fn segment_accessors_round_trip() {
    let mut seg = RibbleWhisperSegment::new("hello".to_string(), 25, 150);
    assert_eq!(seg.text(), "hello");
    assert_eq!(seg.start_timestamp(), 25);
    assert_eq!(seg.end_timestamp(), 150);
    seg.replace_text("replaced".to_string());
    assert_eq!(seg.text(), "replaced");
    assert_eq!(seg.start_timestamp(), 25);
    assert_eq!(seg.into_text(), "replaced");
}

#[test]
fn snapshot_accessors_round_trip() {
    let snap = TranscriptionSnapshot::new(
        "confirmed text".to_string(),
        vec!["one".to_string(), "two".to_string()],
    );
    assert_eq!(snap.confirmed(), "confirmed text");
    assert_eq!(snap.string_segments().len(), 2);
    assert_eq!(snap.string_segments()[1], "two");
    let (confirmed, segments) = snap.into_parts();
    assert_eq!(confirmed, "confirmed text");
    assert_eq!(segments, vec!["one".to_string(), "two".to_string()]);
}

#[test]
fn snapshot_renders_confirmed_then_tail() {
    let snap = TranscriptionSnapshot::new(
        "confirmed".to_string(),
        vec!["tentative".to_string(), "tail".to_string()],
    );
    assert_eq!(snap.into_string(), "confirmed tentative tail");
}

#[test]
fn default_snapshot_is_empty() {
    let snap = TranscriptionSnapshot::default();
    assert_eq!(snap.confirmed(), "");
    assert!(snap.string_segments().is_empty());
}

#[test]
fn control_phrases_render_their_labels() {
    assert_eq!(WhisperControlPhrase::Idle.to_display_string(), "[IDLE]");
    assert_eq!(
        WhisperControlPhrase::GettingReady.to_display_string(),
        "[GETTING_READY]"
    );
    assert_eq!(
        WhisperControlPhrase::StartSpeaking.to_display_string(),
        "[START SPEAKING]"
    );
    assert_eq!(
        WhisperControlPhrase::TimeoutElapsed.to_display_string(),
        "[TRANSCRIPTION TIMEOUT]"
    );
    assert_eq!(
        WhisperControlPhrase::Ended.to_display_string(),
        "[END TRANSCRIPTION]"
    );
    assert_eq!(
        WhisperControlPhrase::Debug("probe".to_string()).to_display_string(),
        "Debug: probe"
    );
}

#[test]
fn default_control_phrase_is_idle() {
    assert_eq!(
        WhisperControlPhrase::default().to_display_string(),
        "[IDLE]"
    );
}

#[test]
fn output_unwraps_either_payload() {
    let snap = TranscriptionSnapshot::new("left".to_string(), vec!["right".to_string()]);
    assert_eq!(
        WhisperOutput::TranscriptionSnapshot(snap).into_inner(),
        "left right"
    );
    assert_eq!(
        WhisperOutput::ControlPhrase(WhisperControlPhrase::Running).into_inner(),
        "[RUNNING]"
    );
}

#[test]
fn errors_carry_their_messages() {
    let e = RibbleWhisperError::ParameterError("missing capacity".to_string());
    assert_eq!(e.message(), "missing capacity");
    let e = RibbleWhisperError::ModelNotFound("no such model".to_string());
    assert_eq!(e.message(), "no such model");
    let e = RibbleWhisperError::DecoderFailed("decode window failed".to_string());
    assert_eq!(e.message(), "decode window failed");
    let e = RibbleWhisperError::VadError("detector failed".to_string());
    assert_eq!(e.message(), "detector failed");
    let e = RibbleWhisperError::ChannelClosed("consumer gone".to_string());
    assert_eq!(e.message(), "consumer gone");
    let e = RibbleWhisperError::ModelLoadFailed("bad model file".to_string());
    assert_eq!(e.message(), "bad model file");
}
