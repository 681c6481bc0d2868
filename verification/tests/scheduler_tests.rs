//! Behavior of the streaming decode scheduler, driven through its
//! event-and-directive interface.

use ribble_whisper::audio_ring_buffer::AudioRingBufferBuilder;
use ribble_whisper::scheduler::{
    voice_frames_vote, DecodeDirective, DecodeScheduler, RealtimeTranscriberHandle,
    TickDirective, VoiceDirective, WhisperRealtimeConfigs,
};
use ribble_whisper::transcriber::RibbleWhisperSegment;

fn scheduler_with(
    configs: WhisperRealtimeConfigs,
    ring_capacity_ms: usize,
) -> DecodeScheduler<f32> {
    let ring = AudioRingBufferBuilder::new()
        .with_capacity_ms(ring_capacity_ms)
        .with_sample_rate(16000)
        .build()
        .expect("ring should build");
    DecodeScheduler::new(configs, ring)
}

fn seg(text: &str) -> RibbleWhisperSegment {
    RibbleWhisperSegment::new(text.to_string(), 0, 100)
}

#[test]
fn pacing_waits_out_short_ticks() {
    let mut s = scheduler_with(WhisperRealtimeConfigs::default(), 10000);
    assert!(matches!(s.on_tick(10), TickDirective::Wait));
}

#[test]
fn tick_skips_until_audio_gathers() {
    let mut s = scheduler_with(WhisperRealtimeConfigs::default(), 10000);
    // Enough time has passed, but no audio has been pushed yet.
    assert!(matches!(s.on_tick(300), TickDirective::Skip));
}

#[test]
fn silent_session_confirms_pause_and_never_decodes() {
    // Ten seconds of zero-valued PCM at 16 kHz: the session must report a
    // pause with an empty transcript, and must never ask for a decode.
    let mut s = scheduler_with(WhisperRealtimeConfigs::default(), 10000);
    s.push_audio(&vec![0.0f32; 160000]);
    let mut pauses = 0;
    for _ in 0..40 {
        match s.on_tick(300) {
            TickDirective::CheckVoice(_) => match s.on_voice_decision(false) {
                VoiceDirective::PauseConfirmed(snap) => {
                    pauses += 1;
                    assert_eq!(snap.confirmed(), "");
                    assert!(snap.string_segments().is_empty());
                },
                VoiceDirective::Decode(..) => panic!("a silent session asked for a decode"),
                VoiceDirective::Continue => {},
            },
            TickDirective::Decode(..) => panic!("a silent session asked for a decode"),
            _ => {},
        }
    }
    assert!(pauses >= 1);
    assert_eq!(s.finalize(), "");
}

#[test]
fn voiced_audio_opens_the_decode_gate() {
    let mut s = scheduler_with(WhisperRealtimeConfigs::default(), 10000);
    s.push_audio(&vec![0.25f32; 32000]);
    match s.on_tick(300) {
        TickDirective::CheckVoice(samples) => {
            // 300 ms at 16 kHz.
            assert_eq!(samples.len(), 4800);
        },
        _ => panic!("expected a voice check"),
    }
    match s.on_voice_decision(true) {
        VoiceDirective::Decode(samples, use_context) => {
            assert_eq!(samples.len(), 32000);
            assert!(!use_context);
        },
        _ => panic!("expected a decode directive"),
    }
}

#[test]
fn decode_below_minimum_defers_to_inference() {
    let mut configs = WhisperRealtimeConfigs::default();
    configs.min_sample_ms = 4000;
    let mut s = scheduler_with(configs, 10000);
    // One second of audio: enough for the voice gate, not for a decode.
    s.push_audio(&vec![0.25f32; 16000]);
    assert!(matches!(s.on_tick(300), TickDirective::CheckVoice(_)));
    assert!(matches!(s.on_voice_decision(true), VoiceDirective::Continue));
    // More audio arrives; the deferred iteration decodes without a new
    // voice check.
    s.push_audio(&vec![0.25f32; 64000]);
    match s.on_tick(300) {
        TickDirective::Decode(samples, _) => assert_eq!(samples.len(), 80000),
        _ => panic!("expected the deferred decode"),
    }
}

#[test]
fn decode_result_publishes_snapshot() {
    let mut s = scheduler_with(WhisperRealtimeConfigs::default(), 10000);
    s.push_audio(&vec![0.25f32; 32000]);
    assert!(matches!(s.on_tick(300), TickDirective::CheckVoice(_)));
    assert!(matches!(
        s.on_voice_decision(true),
        VoiceDirective::Decode(..)
    ));
    match s.on_decode_result(vec![seg("hello world")]) {
        DecodeDirective::Publish(snap) => {
            assert_eq!(snap.confirmed(), "");
            assert_eq!(snap.string_segments().len(), 1);
            assert_eq!(snap.string_segments()[0], "hello world");
        },
        _ => panic!("expected a published snapshot"),
    }
}

#[test]
fn empty_decode_changes_nothing() {
    let mut s = scheduler_with(WhisperRealtimeConfigs::default(), 10000);
    assert!(matches!(
        s.on_decode_result(Vec::new()),
        DecodeDirective::NoSegments
    ));
    assert_eq!(s.finalize(), "");
}

#[test]
fn full_window_rotates_once_and_retains_tail() {
    // Fill the ring to capacity with voiced audio and complete one decode:
    // the ring keeps exactly the configured tail, the working set holds the
    // triggering decode, and the next decode is primed with context.
    let mut s = scheduler_with(WhisperRealtimeConfigs::default(), 10000);
    s.push_audio(&vec![0.25f32; 160000]);
    assert!(matches!(s.on_tick(300), TickDirective::CheckVoice(_)));
    assert!(matches!(
        s.on_voice_decision(true),
        VoiceDirective::Decode(..)
    ));
    match s.on_decode_result(vec![seg("the first window")]) {
        DecodeDirective::Publish(snap) => {
            assert_eq!(snap.string_segments().len(), 1);
            assert_eq!(snap.string_segments()[0], "the first window");
        },
        _ => panic!("expected a published snapshot"),
    }
    // Exactly the retained tail is left: 500 ms.
    assert_eq!(s.buffered_audio_ms(), 500);
    // The decode after a rotation runs with context priming.
    s.push_audio(&vec![0.25f32; 32000]);
    assert!(matches!(s.on_tick(300), TickDirective::CheckVoice(_)));
    match s.on_voice_decision(true) {
        VoiceDirective::Decode(_, use_context) => assert!(use_context),
        _ => panic!("expected a decode directive"),
    }
    // The merge pass does not rotate again.
    match s.on_decode_result(vec![seg("the first window continues here")]) {
        DecodeDirective::Publish(_) => {},
        _ => panic!("expected a published snapshot"),
    }
    assert!(s.buffered_audio_ms() > 500);
    // And the pass after the merge runs without context again.
    s.push_audio(&vec![0.25f32; 16000]);
    assert!(matches!(s.on_tick(300), TickDirective::CheckVoice(_)));
    match s.on_voice_decision(true) {
        VoiceDirective::Decode(_, use_context) => assert!(!use_context),
        _ => panic!("expected a decode directive"),
    }
}

#[test]
fn pause_after_speech_confirms_transcript() {
    let mut s = scheduler_with(WhisperRealtimeConfigs::default(), 10000);
    s.push_audio(&vec![0.25f32; 64000]);
    assert!(matches!(s.on_tick(300), TickDirective::CheckVoice(_)));
    assert!(matches!(
        s.on_voice_decision(true),
        VoiceDirective::Decode(..)
    ));
    assert!(matches!(
        s.on_decode_result(vec![seg("counting on you")]),
        DecodeDirective::Publish(_)
    ));
    // Silence now: the first expiry forces a decode of the tail, the
    // second confirms the pause and drains the working set.
    let mut confirmed_pause = false;
    for _ in 0..40 {
        match s.on_tick(300) {
            TickDirective::CheckVoice(_) => match s.on_voice_decision(false) {
                VoiceDirective::PauseConfirmed(snap) => {
                    confirmed_pause = true;
                    assert_eq!(snap.confirmed(), "counting on you");
                    break;
                },
                VoiceDirective::Decode(..) => {
                    // The forced post-pause decode: report it produced
                    // nothing new.
                    let _ = s.on_decode_result(Vec::new());
                },
                VoiceDirective::Continue => {},
            },
            TickDirective::Decode(..) => {
                let _ = s.on_decode_result(Vec::new());
            },
            _ => {},
        }
    }
    assert!(confirmed_pause);
    assert_eq!(s.finalize(), "counting on you");
}

#[test]
fn working_set_overflow_drains_into_prefix() {
    let mut s = scheduler_with(WhisperRealtimeConfigs::default(), 10000);
    s.push_audio(&vec![0.25f32; 32000]);
    assert!(matches!(s.on_tick(300), TickDirective::CheckVoice(_)));
    assert!(matches!(
        s.on_voice_decision(true),
        VoiceDirective::Decode(..)
    ));
    let many: Vec<RibbleWhisperSegment> = vec![
        seg("one"),
        seg("two"),
        seg("three"),
        seg("four"),
        seg("five"),
        seg("six"),
        seg("seven"),
        seg("eight"),
    ];
    match s.on_decode_result(many) {
        DecodeDirective::Publish(snap) => {
            // The two oldest drained into the confirmed prefix; six remain.
            assert_eq!(snap.string_segments().len(), 6);
            assert_eq!(snap.confirmed(), "one two");
            assert_eq!(snap.string_segments()[0], "three");
        },
        _ => panic!("expected a published snapshot"),
    }
}

#[test]
fn session_timeout_is_reported() {
    let mut configs = WhisperRealtimeConfigs::default();
    configs.session_timeout_ms = 1000;
    let mut s = scheduler_with(configs, 10000);
    assert!(!s.timed_out());
    let _ = s.on_tick(600);
    assert!(!s.timed_out());
    let _ = s.on_tick(600);
    assert!(s.timed_out());
}

#[test]
fn slow_stop_keeps_the_tail_speech() {
    // Rotate once so the final decode goes through the boundary merge,
    // then absorb a final decode whose head overlaps the working set.
    let mut s = scheduler_with(WhisperRealtimeConfigs::default(), 10000);
    s.push_audio(&vec![0.25f32; 160000]);
    assert!(matches!(s.on_tick(300), TickDirective::CheckVoice(_)));
    assert!(matches!(
        s.on_voice_decision(true),
        VoiceDirective::Decode(..)
    ));
    assert!(matches!(
        s.on_decode_result(vec![seg("the quick brown fox jumps")]),
        DecodeDirective::Publish(_)
    ));
    s.absorb_final_segments(vec![seg("brown fox jumps over the lazy")]);
    assert_eq!(s.finalize(), "the quick brown fox jumps over the lazy");
}

#[test]
fn merge_after_rotation_blends_the_boundary() {
    // The decode that fills the window becomes the working set; the next
    // decode overlaps it, and the blend keeps the boundary word exactly
    // once.
    let mut s = scheduler_with(WhisperRealtimeConfigs::default(), 10000);
    s.push_audio(&vec![0.25f32; 160000]);
    assert!(matches!(s.on_tick(300), TickDirective::CheckVoice(_)));
    assert!(matches!(
        s.on_voice_decision(true),
        VoiceDirective::Decode(..)
    ));
    assert!(matches!(
        s.on_decode_result(vec![seg("one two three four five six")]),
        DecodeDirective::Publish(_)
    ));
    s.push_audio(&vec![0.25f32; 32000]);
    assert!(matches!(s.on_tick(300), TickDirective::CheckVoice(_)));
    assert!(matches!(
        s.on_voice_decision(true),
        VoiceDirective::Decode(..)
    ));
    match s.on_decode_result(vec![seg("five six seven eight nine ten eleven")]) {
        DecodeDirective::Publish(snap) => {
            assert_eq!(snap.string_segments().len(), 1);
            assert_eq!(snap.string_segments()[0], "one two three four five six seven");
        },
        _ => panic!("expected a published snapshot"),
    }
    assert_eq!(s.finalize(), "one two three four five six seven");
}

#[test]
fn voice_vote_counts_the_threshold_share() {
    assert!(!voice_frames_vote(0, 0, 600));
    assert!(voice_frames_vote(3, 5, 600));
    assert!(!voice_frames_vote(2, 5, 600));
    assert!(voice_frames_vote(5, 5, 1000));
    assert!(voice_frames_vote(0, 5, 0));
}

#[test]
fn handle_reports_readiness_across_clones() {
    let handle = RealtimeTranscriberHandle::new();
    let other = handle.clone();
    assert!(!handle.ready());
    assert!(!other.ready());
    handle.set_ready(true);
    assert!(other.ready());
    other.set_ready(false);
    assert!(!handle.ready());
}
