//! The streaming decode scheduler: the decision core of the realtime loop.
//!
//! The scheduler owns the audio ring, the tentative working set and the
//! confirmed prefix, and decides per iteration whether to wait, check for
//! voice, decode, rotate the window, confirm a pause, or publish a snapshot.
//! Everything that must leave the process — running the voice detector,
//! running the acoustic model, sleeping, sending snapshots — is handed back
//! to the caller as a directive, and the outcome is fed back in as the next
//! event. That keeps every decision here, where it is verified, while the
//! expensive collaborators stay outside.

use std::sync::atomic::{AtomicBool, Ordering};
use std::sync::Arc;

use vstd::prelude::*;

use crate::audio_ring_buffer::{samples_for_ms, AudioRingBuffer};
use crate::reconcile::{
    blend_segments, blend_spec, confirm_spec, confirm_transcription, dedup_spec,
    deduplicate_strings, lemma_confirm_trimmed, segment_texts,
};
use crate::text::{trim, trim_spaces};
use crate::transcriber::{RibbleWhisperSegment, TranscriptionSnapshot};

verus! {

/// Upper bound on the number of tentative segments kept for revision.
pub const WORKING_SET_SIZE: usize = 6;

/// How long a caller should sleep, in milliseconds, when told to wait.
pub const PAUSE_DURATION: u64 = 100;

/// Default audio retained across a window rotation, in milliseconds, to
/// preserve word boundaries.
pub const RETAIN_MS: usize = 500;

/// Default unvoiced duration after which a pause is declared, in
/// milliseconds.
pub const VAD_TIMEOUT_MS: u64 = 1500;

/// The configuration surface of the realtime loop. All durations are in
/// milliseconds.
#[derive(Clone, Copy)]
pub struct WhisperRealtimeConfigs {
    /// Length of audio examined by the voice gate per tick.
    pub vad_window_ms: usize,
    /// Length of audio fed to the decoder per invocation.
    pub decode_window_ms: usize,
    /// Minimum audio that must have accumulated before decoding is allowed.
    pub min_sample_ms: usize,
    /// Audio kept after a full-window rotation.
    pub retain_on_rotate_ms: usize,
    /// Unvoiced duration after which a pause is declared.
    pub vad_pause_timeout_ms: u64,
    /// Hard upper bound on total session time; zero means unbounded.
    pub session_timeout_ms: u64,
}

impl Default for WhisperRealtimeConfigs {
    /// Ten-second decode windows over a 300 ms voice gate, half a second
    /// retained on rotation, pauses after one and a half seconds of silence,
    /// and no session timeout.
    fn default() -> (r: Self)
        ensures
            r.vad_window_ms == 300,
            r.decode_window_ms == 10000,
            r.min_sample_ms == 1000,
            r.retain_on_rotate_ms == RETAIN_MS,
            r.vad_pause_timeout_ms == VAD_TIMEOUT_MS,
            r.session_timeout_ms == 0,
    {
        WhisperRealtimeConfigs {
            vad_window_ms: 300,
            decode_window_ms: 10000,
            min_sample_ms: 1000,
            retain_on_rotate_ms: RETAIN_MS,
            vad_pause_timeout_ms: VAD_TIMEOUT_MS,
            session_timeout_ms: 0,
        }
    }
}

/// What the caller must do after a tick.
pub enum TickDirective<T> {
    /// Too soon since the last tick: sleep briefly and tick again.
    Wait,
    /// Not enough audio has gathered: tick again.
    Skip,
    /// Run voice detection over these samples and report the result.
    CheckVoice(Vec<T>),
    /// Run the decoder over these samples; the flag asks for context
    /// priming.
    Decode(Vec<T>, bool),
}

/// What the caller must do after reporting a voice decision.
pub enum VoiceDirective<T> {
    /// Keep gathering audio: tick again.
    Continue,
    /// A pause was confirmed: the ring was cleared and the working set
    /// drained into the confirmed prefix; publish this snapshot.
    PauseConfirmed(TranscriptionSnapshot),
    /// Run the decoder over these samples; the flag asks for context
    /// priming.
    Decode(Vec<T>, bool),
}

/// What the caller must do after reporting a decode result.
pub enum DecodeDirective {
    /// The decoder produced nothing: tick again.
    NoSegments,
    /// Publish this snapshot, then tick again.
    Publish(TranscriptionSnapshot),
    /// Nothing worth publishing yet: tick again.
    Quiet,
}

/// The voice gate's aggregate policy over one slice: voiced when at least
/// `ratio_permille` thousandths of the examined frames carried voice. An
/// empty slice never counts as voiced.
pub fn voice_frames_vote(voiced_frames: usize, total_frames: usize, ratio_permille: u32) -> (r:
    bool)
    ensures
        r == (total_frames > 0 && voiced_frames as int * 1000 >= total_frames as int
            * ratio_permille),
{
    proof {
        assert((total_frames as u128) * (ratio_permille as u128) <= u128::MAX)
            by (nonlinear_arith)
            requires
                total_frames as u128 <= u64::MAX as u128,
                ratio_permille as u128 <= u64::MAX as u128,
        {
        }
        assert((voiced_frames as u128) * 1000 <= u128::MAX) by (nonlinear_arith)
            requires
                voiced_frames as u128 <= u64::MAX as u128,
        {
        }
    }
    total_frames > 0 && (voiced_frames as u128) * 1000 >= (total_frames as u128)
        * (ratio_permille as u128)
}

/// The working-set texts after the reconciler merges a new decode into
/// them: the last old text is blended with the first new one and the rest
/// of the new segments follow.
pub open spec fn merged_texts(ws: Seq<Seq<char>>, new: Seq<Seq<char>>) -> Seq<Seq<char>> {
    if ws.len() == 0 {
        new
    } else if new.len() == 0 {
        ws
    } else {
        ws.update(ws.len() - 1, blend_spec(ws[ws.len() - 1], new[0])) + new.skip(1)
    }
}

/// The working-set texts after a final slow-stop decode is reconciled in:
/// the boundary pair is deduplicated but both sides are kept, so no tail
/// speech is lost on shutdown.
pub open spec fn final_merge_texts(ws: Seq<Seq<char>>, new: Seq<Seq<char>>) -> Seq<Seq<char>> {
    if new.len() == 0 {
        ws
    } else if ws.len() == 0 {
        new
    } else {
        match dedup_spec(ws[ws.len() - 1], new[0]) {
            None => ws + new,
            Some(p) => ws.update(ws.len() - 1, trim_spaces(p.0)) + seq![trim_spaces(p.1)]
                + new.skip(1),
        }
    }
}

/// The confirmed prefix after the overflow drain: unchanged while the
/// working set fits, else extended by the oldest surplus segments.
pub open spec fn drained_confirmed(out: Seq<char>, ws: Seq<Seq<char>>) -> Seq<char> {
    if ws.len() <= WORKING_SET_SIZE as int {
        out
    } else {
        confirm_spec(out, ws.take(ws.len() - WORKING_SET_SIZE as int))
    }
}

/// The working-set texts after the overflow drain: at most
/// `WORKING_SET_SIZE` newest entries.
pub open spec fn drained_texts(ws: Seq<Seq<char>>) -> Seq<Seq<char>> {
    if ws.len() <= WORKING_SET_SIZE as int {
        ws
    } else {
        ws.skip(ws.len() - WORKING_SET_SIZE as int)
    }
}

/// The decision core of one realtime transcription session. The sample
/// type is generic; the scheduler never inspects sample values.
pub struct DecodeScheduler<T: Copy> {
    config: WhisperRealtimeConfigs,
    ring: AudioRingBuffer<T>,
    working_set: Vec<RibbleWhisperSegment>,
    confirmed: String,
    clock_ms: u64,
    unvoiced_since_ms: Option<u64>,
    skip_vad_run_inference: bool,
    run_segment_merge: bool,
    previous_pause_clear_buffer: bool,
    use_context: bool,
    voice_seen: bool,
}

impl<T: Copy> DecodeScheduler<T> {
    /// The session configuration.
    pub closed spec fn spec_config(&self) -> WhisperRealtimeConfigs {
        self.config
    }

    /// The audio ring.
    pub closed spec fn spec_ring(&self) -> AudioRingBuffer<T> {
        self.ring
    }

    /// The tentative working set.
    pub closed spec fn spec_working_set(&self) -> Seq<RibbleWhisperSegment> {
        self.working_set@
    }

    /// The confirmed prefix.
    pub closed spec fn spec_confirmed(&self) -> Seq<char> {
        self.confirmed@
    }

    /// Total elapsed session time, in milliseconds.
    pub closed spec fn spec_clock_ms(&self) -> u64 {
        self.clock_ms
    }

    /// When the running unvoiced stretch began, if one is being timed.
    pub closed spec fn spec_unvoiced_since_ms(&self) -> Option<u64> {
        self.unvoiced_since_ms
    }

    /// Whether the next tick must skip voice detection and decode.
    pub closed spec fn spec_skip_vad(&self) -> bool {
        self.skip_vad_run_inference
    }

    /// Whether the next decode result must be merged across a rotation.
    pub closed spec fn spec_run_segment_merge(&self) -> bool {
        self.run_segment_merge
    }

    /// Whether a pause timeout has already expired once without voice in
    /// between.
    pub closed spec fn spec_pause_pending(&self) -> bool {
        self.previous_pause_clear_buffer
    }

    /// Whether the next decode should be primed with prior context.
    pub closed spec fn spec_use_context(&self) -> bool {
        self.use_context
    }

    /// Whether any voice has been detected since the last buffer clear.
    pub closed spec fn spec_voice_seen(&self) -> bool {
        self.voice_seen
    }

    /// Internal consistency: a valid ring, a trimmed confirmed prefix, and
    /// an unvoiced mark no later than the clock.
    pub closed spec fn wf(&self) -> bool {
        &&& self.ring.wf()
        &&& trim_spaces(self.confirmed@) == self.confirmed@
        &&& match self.unvoiced_since_ms {
            Some(s) => s <= self.clock_ms,
            None => true,
        }
    }

    /// A fresh session over the given ring: empty transcript, cleared
    /// flags, clock at zero.
    pub fn new(config: WhisperRealtimeConfigs, audio_buffer: AudioRingBuffer<T>) -> (r: Self)
        requires
            audio_buffer.wf(),
        ensures
            r.wf(),
            r.spec_config() == config,
            r.spec_ring() == audio_buffer,
            r.spec_working_set() == Seq::<RibbleWhisperSegment>::empty(),
            r.spec_confirmed() == Seq::<char>::empty(),
            r.spec_clock_ms() == 0,
            r.spec_unvoiced_since_ms() is None,
            !r.spec_skip_vad(),
            !r.spec_run_segment_merge(),
            !r.spec_pause_pending(),
            !r.spec_use_context(),
            !r.spec_voice_seen(),
    {
        let r = DecodeScheduler {
            config,
            ring: audio_buffer,
            working_set: Vec::new(),
            confirmed: String::new(),
            clock_ms: 0,
            unvoiced_since_ms: None,
            skip_vad_run_inference: false,
            run_segment_merge: false,
            previous_pause_clear_buffer: false,
            use_context: false,
            voice_seen: false,
        };
        proof {
            assert(r.working_set@ =~= Seq::<RibbleWhisperSegment>::empty());
        }
        r
    }

    /// Appends captured samples to the audio ring.
    pub fn push_audio(&mut self, samples: &[T])
        requires
            old(self).wf(),
        ensures
            final(self).wf(),
            final(self).spec_ring()@ == crate::audio_ring_buffer::ring_append(
                old(self).spec_ring()@,
                samples@,
                old(self).spec_ring().spec_capacity(),
            ),
            final(self).spec_ring().spec_capacity() == old(self).spec_ring().spec_capacity(),
            final(self).spec_ring().spec_capacity_ms() == old(self).spec_ring().spec_capacity_ms(),
            final(self).spec_ring().spec_sample_rate() == old(self).spec_ring().spec_sample_rate(),
            final(self).spec_config() == old(self).spec_config(),
            final(self).spec_working_set() == old(self).spec_working_set(),
            final(self).spec_confirmed() == old(self).spec_confirmed(),
            final(self).spec_clock_ms() == old(self).spec_clock_ms(),
            final(self).spec_skip_vad() == old(self).spec_skip_vad(),
            final(self).spec_voice_seen() == old(self).spec_voice_seen(),
            final(self).spec_unvoiced_since_ms() == old(self).spec_unvoiced_since_ms(),
            final(self).spec_pause_pending() == old(self).spec_pause_pending(),
            final(self).spec_run_segment_merge() == old(self).spec_run_segment_merge(),
            final(self).spec_use_context() == old(self).spec_use_context(),
    {
        self.ring.push_audio(samples);
    }

    /// Whether this many samples cover at least `need_ms` milliseconds at
    /// the ring's rate.
    fn enough_samples(&self, samples: &Vec<T>, need_ms: usize) -> (r: bool)
        requires
            self.wf(),
        ensures
            r == (samples@.len() >= samples_for_ms(
                need_ms as int,
                self.spec_ring().spec_sample_rate(),
            )),
    {
        let rate = self.ring.get_sample_rate();
        proof {
            assert((need_ms as u128) * (rate as u128) <= u128::MAX) by (nonlinear_arith)
                requires
                    need_ms as u128 <= u64::MAX as u128,
                    rate as u128 <= u64::MAX as u128,
            {
            }
        }
        let need: u128 = (need_ms as u128) * (rate as u128) / 1000;
        (samples.len() as u128) >= need
    }

    /// Advances the session clock and decides how the iteration starts:
    /// wait out the pacing interval, skip for lack of audio, check for
    /// voice, or — when a previous iteration deferred to inference — go
    /// straight to the decoder.
    pub fn on_tick(&mut self, elapsed_ms: u64) -> (d: TickDirective<T>)
        requires
            old(self).wf(),
        ensures
            final(self).wf(),
            final(self).spec_config() == old(self).spec_config(),
            final(self).spec_ring() == old(self).spec_ring(),
            final(self).spec_working_set() == old(self).spec_working_set(),
            final(self).spec_confirmed() == old(self).spec_confirmed(),
            final(self).spec_run_segment_merge() == old(self).spec_run_segment_merge(),
            final(self).spec_use_context() == old(self).spec_use_context(),
            final(self).spec_voice_seen() == old(self).spec_voice_seen(),
            final(self).spec_clock_ms() == (if old(self).spec_clock_ms() + elapsed_ms <= u64::MAX {
                (old(self).spec_clock_ms() + elapsed_ms) as u64
            } else {
                u64::MAX
            }),
            final(self).spec_skip_vad() ==> old(self).spec_skip_vad(),
            !old(self).spec_skip_vad() ==> !(d is Decode),
            (elapsed_ms < old(self).spec_config().vad_window_ms as u64) <==> (d is Wait),
            d is Wait ==> final(self).spec_skip_vad() == old(self).spec_skip_vad() && final(self).spec_unvoiced_since_ms() == old(self).spec_unvoiced_since_ms() && final(self).spec_pause_pending() == old(self).spec_pause_pending(),
            ({
                let ring = old(self).spec_ring();
                let cfg = old(self).spec_config();
                let enough_vad = ring.spec_read_len(cfg.vad_window_ms as int) >= samples_for_ms(
                    cfg.vad_window_ms as int,
                    ring.spec_sample_rate(),
                );
                let enough_decode = ring.spec_read_len(cfg.decode_window_ms as int)
                    >= samples_for_ms(cfg.min_sample_ms as int, ring.spec_sample_rate());
                elapsed_ms >= cfg.vad_window_ms as u64 ==> {
                    &&& (match d {
                        TickDirective::CheckVoice(s) => !old(self).spec_skip_vad() && enough_vad
                            && s@ == ring.spec_read(cfg.vad_window_ms as int) && final(self).spec_unvoiced_since_ms() == old(self).spec_unvoiced_since_ms() && final(self).spec_pause_pending() == old(self).spec_pause_pending(),
                        TickDirective::Decode(s, ctx) => old(self).spec_skip_vad() && enough_vad
                            && enough_decode && s@ == ring.spec_read(cfg.decode_window_ms as int)
                            && ctx == old(self).spec_use_context() && final(self).spec_unvoiced_since_ms() is None && !final(self).spec_pause_pending(),
                        TickDirective::Skip => !enough_vad || (old(self).spec_skip_vad()
                            && !enough_decode),
                        TickDirective::Wait => false,
                    })
                }
            }),
    {
        self.clock_ms = self.clock_ms.saturating_add(elapsed_ms);
        if elapsed_ms < self.config.vad_window_ms as u64 {
            return TickDirective::Wait;
        }
        let samples = self.ring.read(self.config.vad_window_ms);
        if !self.enough_samples(&samples, self.config.vad_window_ms) {
            return TickDirective::Skip;
        }
        if self.skip_vad_run_inference {
            // Inference was deferred for lack of audio: avoid early-clearing
            // the buffer and try the decode gate directly.
            self.previous_pause_clear_buffer = false;
            self.unvoiced_since_ms = None;
            let decode_samples = self.ring.read(self.config.decode_window_ms);
            if !self.enough_samples(&decode_samples, self.config.min_sample_ms) {
                self.skip_vad_run_inference = true;
                return TickDirective::Skip;
            }
            return TickDirective::Decode(decode_samples, self.use_context);
        }
        TickDirective::CheckVoice(samples)
    }

    /// Feeds the voice decision for the samples of the last tick. Voice
    /// resets the pause timer and opens the decode gate. Silence runs the
    /// pause timer; its first expiry forces one decode of the remaining
    /// audio (if any voice was ever heard), and a second expiry without
    /// intervening voice confirms the pause: the working set is drained
    /// into the confirmed prefix, the ring is cleared, and a snapshot is
    /// handed back for publication.
    ///
    /// A session that never hears voice is never told to decode.
    pub fn on_voice_decision(&mut self, voiced: bool) -> (d: VoiceDirective<T>)
        requires
            old(self).wf(),
        ensures
            final(self).wf(),
            final(self).spec_config() == old(self).spec_config(),
            final(self).spec_clock_ms() == old(self).spec_clock_ms(),
            final(self).spec_ring().spec_capacity() == old(self).spec_ring().spec_capacity(),
            final(self).spec_ring().spec_capacity_ms() == old(self).spec_ring().spec_capacity_ms(),
            final(self).spec_ring().spec_sample_rate() == old(self).spec_ring().spec_sample_rate(),
            (!voiced && !old(self).spec_voice_seen()) ==> !(d is Decode),
            (!voiced && !old(self).spec_voice_seen()) ==> !final(self).spec_voice_seen() && final(self).spec_skip_vad() == old(self).spec_skip_vad(),
            final(self).spec_working_set().len() <= old(self).spec_working_set().len(),
            ({
                let ring = old(self).spec_ring();
                let cfg = old(self).spec_config();
                let enough_decode = ring.spec_read_len(cfg.decode_window_ms as int)
                    >= samples_for_ms(cfg.min_sample_ms as int, ring.spec_sample_rate());
                let gate_ok = (match d {
                    VoiceDirective::Decode(s, ctx) => enough_decode && s@ == ring.spec_read(
                        cfg.decode_window_ms as int,
                    ) && ctx == old(self).spec_use_context() && final(self).spec_ring() == ring
                        && final(self).spec_confirmed() == old(self).spec_confirmed() && final(self).spec_working_set() == old(self).spec_working_set(),
                    VoiceDirective::Continue => final(self).spec_ring() == ring && final(self).spec_confirmed() == old(self).spec_confirmed() && final(self).spec_working_set() == old(self).spec_working_set(),
                    VoiceDirective::PauseConfirmed(_) => false,
                });
                if voiced {
                    &&& gate_ok
                    &&& final(self).spec_voice_seen()
                    &&& final(self).spec_unvoiced_since_ms() is None
                    &&& !final(self).spec_pause_pending()
                    &&& (d is Decode <==> enough_decode)
                } else {
                    match old(self).spec_unvoiced_since_ms() {
                        None => {
                            &&& d is Continue
                            &&& final(self).spec_unvoiced_since_ms() == Some(
                                old(self).spec_clock_ms(),
                            )
                            &&& final(self).spec_confirmed() == old(self).spec_confirmed()
                            &&& final(self).spec_working_set() == old(self).spec_working_set()
                            &&& final(self).spec_ring() == ring
                        },
                        Some(start) => {
                            if old(self).spec_clock_ms() - start < cfg.vad_pause_timeout_ms {
                                &&& d is Continue
                                &&& final(self).spec_confirmed() == old(self).spec_confirmed()
                                &&& final(self).spec_working_set() == old(self).spec_working_set()
                                &&& final(self).spec_ring() == ring
                            } else if old(self).spec_pause_pending() {
                                &&& (match d {
                                    VoiceDirective::PauseConfirmed(snap) => {
                                        &&& final(self).spec_confirmed() == confirm_spec(
                                            old(self).spec_confirmed(),
                                            segment_texts(old(self).spec_working_set()),
                                        )
                                        &&& snap.spec_confirmed() == final(self).spec_confirmed()
                                        &&& snap.spec_segments() == Seq::<Seq<char>>::empty()
                                        &&& final(self).spec_working_set() == Seq::<
                                            RibbleWhisperSegment,
                                        >::empty()
                                        &&& final(self).spec_ring()@ == Seq::<T>::empty()
                                        &&& !final(self).spec_run_segment_merge()
                                        &&& final(self).spec_unvoiced_since_ms() is None
                                        &&& !final(self).spec_voice_seen()
                                    },
                                    _ => false,
                                })
                            } else {
                                &&& final(self).spec_pause_pending()
                                &&& (old(self).spec_voice_seen() ==> gate_ok)
                                &&& (!old(self).spec_voice_seen() ==> d is Continue && final(self).spec_confirmed() == old(self).spec_confirmed() && final(self).spec_working_set() == old(self).spec_working_set() && final(self).spec_ring() == ring)
                            }
                        },
                    }
                }
            }),
    {
        if voiced {
            self.voice_seen = true;
            self.previous_pause_clear_buffer = false;
            self.unvoiced_since_ms = None;
            return self.decode_gate();
        }
        match self.unvoiced_since_ms {
            None => {
                self.unvoiced_since_ms = Some(self.clock_ms);
                VoiceDirective::Continue
            },
            Some(start) => {
                if self.clock_ms - start < self.config.vad_pause_timeout_ms {
                    return VoiceDirective::Continue;
                }
                if self.previous_pause_clear_buffer {
                    // Second expiry without voice in between: the pause is
                    // confirmed. Drain the tentative tail and start afresh.
                    self.ring.clear();
                    let out = self.confirmed.clone();
                    self.confirmed = confirm_transcription(out, &mut self.working_set);
                    self.run_segment_merge = false;
                    self.unvoiced_since_ms = None;
                    self.voice_seen = false;
                    let snap = TranscriptionSnapshot::new(self.confirmed.clone(), Vec::new());
                    proof {
                        lemma_confirm_trimmed(
                            old(self).spec_confirmed(),
                            segment_texts(old(self).spec_working_set()),
                        );
                        assert(self.working_set@ =~= Seq::<RibbleWhisperSegment>::empty());
                        assert(snap.spec_segments() =~= Seq::<Seq<char>>::empty());
                    }
                    return VoiceDirective::PauseConfirmed(snap);
                }
                self.previous_pause_clear_buffer = true;
                if !self.voice_seen {
                    // Nothing but silence so far: there is no tail worth
                    // decoding.
                    return VoiceDirective::Continue;
                }
                self.decode_gate()
            },
        }
    }

    /// Reads the decode window and either hands it out for decoding or
    /// defers inference until enough audio has gathered.
    fn decode_gate(&mut self) -> (d: VoiceDirective<T>)
        requires
            old(self).wf(),
        ensures
            final(self).wf(),
            final(self).spec_config() == old(self).spec_config(),
            final(self).spec_ring() == old(self).spec_ring(),
            final(self).spec_working_set() == old(self).spec_working_set(),
            final(self).spec_confirmed() == old(self).spec_confirmed(),
            final(self).spec_clock_ms() == old(self).spec_clock_ms(),
            final(self).spec_unvoiced_since_ms() == old(self).spec_unvoiced_since_ms(),
            final(self).spec_pause_pending() == old(self).spec_pause_pending(),
            final(self).spec_run_segment_merge() == old(self).spec_run_segment_merge(),
            final(self).spec_use_context() == old(self).spec_use_context(),
            final(self).spec_voice_seen() == old(self).spec_voice_seen(),
            ({
                let ring = old(self).spec_ring();
                let cfg = old(self).spec_config();
                let enough_decode = ring.spec_read_len(cfg.decode_window_ms as int)
                    >= samples_for_ms(cfg.min_sample_ms as int, ring.spec_sample_rate());
                match d {
                    VoiceDirective::Decode(s, ctx) => enough_decode && s@ == ring.spec_read(
                        cfg.decode_window_ms as int,
                    ) && ctx == old(self).spec_use_context() && final(self).spec_skip_vad() == old(self).spec_skip_vad(),
                    VoiceDirective::Continue => !enough_decode && final(self).spec_skip_vad(),
                    VoiceDirective::PauseConfirmed(_) => false,
                }
            }),
    {
        let decode_samples = self.ring.read(self.config.decode_window_ms);
        if !self.enough_samples(&decode_samples, self.config.min_sample_ms) {
            self.skip_vad_run_inference = true;
            return VoiceDirective::Continue;
        }
        VoiceDirective::Decode(decode_samples, self.use_context)
    }

    /// Feeds the segments of a completed decode through reconciliation.
    /// Outside a merge pass the working set is replaced whole, and a full
    /// audio window triggers the rotation: the ring keeps only the
    /// configured tail and the next decode is primed with context. On a
    /// merge pass the new decode is blended into the working set. In every
    /// case the oldest surplus beyond `WORKING_SET_SIZE` is drained into
    /// the confirmed prefix, and a snapshot of the updated transcription is
    /// handed back whenever there is anything to show.
    pub fn on_decode_result(&mut self, segments: Vec<RibbleWhisperSegment>) -> (d:
        DecodeDirective)
        requires
            old(self).wf(),
        ensures
            final(self).wf(),
            final(self).spec_config() == old(self).spec_config(),
            final(self).spec_clock_ms() == old(self).spec_clock_ms(),
            final(self).spec_ring().spec_capacity() == old(self).spec_ring().spec_capacity(),
            final(self).spec_ring().spec_capacity_ms() == old(self).spec_ring().spec_capacity_ms(),
            final(self).spec_ring().spec_sample_rate() == old(self).spec_ring().spec_sample_rate(),
            segments@.len() == 0 ==> d is NoSegments && *final(self) == *old(self),
            segments@.len() > 0 ==> ({
                let new = segment_texts(segments@);
                let ws0 = segment_texts(old(self).spec_working_set());
                let out0 = old(self).spec_confirmed();
                let ring0 = old(self).spec_ring();
                let cfg = old(self).spec_config();
                let rotating = !old(self).spec_run_segment_merge() && ring0@.len() as int * 1000
                    / ring0.spec_sample_rate() >= ring0.spec_capacity_ms();
                let base = if old(self).spec_run_segment_merge() {
                    merged_texts(ws0, new)
                } else {
                    new
                };
                &&& !final(self).spec_skip_vad()
                &&& final(self).spec_run_segment_merge() == rotating
                &&& final(self).spec_use_context() == rotating
                &&& (rotating ==> final(self).spec_ring()@ == ({
                    let want = if cfg.retain_on_rotate_ms == 0 {
                        0
                    } else {
                        samples_for_ms(cfg.retain_on_rotate_ms as int, ring0.spec_sample_rate())
                    };
                    let n = if want <= ring0@.len() as int {
                        want
                    } else {
                        ring0@.len() as int
                    };
                    ring0@.subrange(ring0@.len() - n, ring0@.len() as int)
                }))
                &&& (!rotating ==> final(self).spec_ring() == ring0)
                &&& final(self).spec_confirmed() == drained_confirmed(out0, base)
                &&& segment_texts(final(self).spec_working_set()) == drained_texts(base)
                &&& final(self).spec_working_set().len() <= WORKING_SET_SIZE as int
                &&& (match d {
                    DecodeDirective::Publish(snap) => snap.spec_confirmed() == final(self).spec_confirmed() && snap.spec_segments() == segment_texts(
                        final(self).spec_working_set(),
                    ) && !(final(self).spec_confirmed().len() == 0 && final(self).spec_working_set().len() == 0),
                    DecodeDirective::Quiet => final(self).spec_confirmed().len() == 0 && final(self).spec_working_set().len() == 0,
                    DecodeDirective::NoSegments => false,
                })
            }),
    {
        if segments.len() == 0 {
            return DecodeDirective::NoSegments;
        }
        let ghost ws0 = segment_texts(old(self).spec_working_set());
        let ghost new = segment_texts(segments@);
        self.skip_vad_run_inference = false;
        if !self.run_segment_merge {
            self.use_context = false;
            let audio_ms = self.ring.get_audio_length_ms();
            let cap_ms = self.ring.get_capacity_in_ms();
            if audio_ms >= cap_ms {
                // The window is full: drop all but a short tail so word
                // boundaries survive, and prime the next decode with this
                // one as context.
                self.ring.clear_from_back_retain_ms(self.config.retain_on_rotate_ms);
                self.working_set = segments;
                self.use_context = true;
                self.run_segment_merge = true;
            } else {
                self.working_set = segments;
            }
            proof {
                assert(segment_texts(self.working_set@) =~= new);
            }
        } else {
            self.run_segment_merge = false;
            self.use_context = false;
            if self.working_set.len() == 0 {
                self.working_set = segments;
                proof {
                    assert(segment_texts(self.working_set@) =~= new);
                    assert(merged_texts(ws0, new) == new);
                }
            } else {
                let mut rest = segments;
                let first = rest.remove(0);
                proof {
                    assert(rest@ =~= segments@.skip(1));
                    assert(first.spec_text() == new[0]);
                }
                let popped = self.working_set.pop();
                match popped {
                    Some(last0) => {
                        let mut last = last0;
                        blend_segments(&mut last, &first);
                        self.working_set.push(last);
                        proof {
                            assert(segment_texts(self.working_set@) =~= ws0.update(
                                ws0.len() - 1,
                                blend_spec(ws0[ws0.len() - 1], new[0]),
                            ));
                        }
                    },
                    None => {
                        proof {
                            assert(false);
                        }
                    },
                }
                let ghost mid = self.working_set@;
                let ghost frame = *self;
                while rest.len() > 0
                    invariant
                        self.working_set@ + rest@ == mid + segments@.skip(1),
                        self.working_set@.len() >= mid.len(),
                        self.spec_config() == frame.spec_config(),
                        self.spec_ring() == frame.spec_ring(),
                        self.spec_confirmed() == frame.spec_confirmed(),
                        self.spec_clock_ms() == frame.spec_clock_ms(),
                        self.spec_unvoiced_since_ms() == frame.spec_unvoiced_since_ms(),
                        self.spec_skip_vad() == frame.spec_skip_vad(),
                        self.spec_run_segment_merge() == frame.spec_run_segment_merge(),
                        self.spec_pause_pending() == frame.spec_pause_pending(),
                        self.spec_use_context() == frame.spec_use_context(),
                        self.spec_voice_seen() == frame.spec_voice_seen(),
                        self.wf() == frame.wf(),
                    decreases rest@.len(),
                {
                    let ghost pre_ws = self.working_set@;
                    let ghost pre_rest = rest@;
                    let seg = rest.remove(0);
                    self.working_set.push(seg);
                    proof {
                        assert(rest@ =~= pre_rest.skip(1));
                        assert(self.working_set@ + rest@ =~= pre_ws + pre_rest);
                    }
                }
                proof {
                    assert(self.working_set@ =~= self.working_set@ + rest@);
                    assert(segment_texts(self.working_set@) =~= merged_texts(ws0, new));
                }
            }
        }
        // Bound the tentative tail: confirm the oldest surplus.
        if self.working_set.len() > WORKING_SET_SIZE {
            let ghost pre = self.working_set@;
            let ghost frame = *self;
            let surplus = self.working_set.len() - WORKING_SET_SIZE;
            let mut confirm_from: Vec<RibbleWhisperSegment> = Vec::new();
            let mut k: usize = 0;
            proof {
                assert(confirm_from@ =~= pre.take(0));
                assert(self.working_set@ =~= pre.skip(0));
            }
            while k < surplus
                invariant
                    k <= surplus <= pre.len(),
                    confirm_from@ == pre.take(k as int),
                    self.working_set@ == pre.skip(k as int),
                    self.spec_config() == frame.spec_config(),
                    self.spec_ring() == frame.spec_ring(),
                    self.spec_confirmed() == frame.spec_confirmed(),
                    self.spec_clock_ms() == frame.spec_clock_ms(),
                    self.spec_unvoiced_since_ms() == frame.spec_unvoiced_since_ms(),
                    self.spec_skip_vad() == frame.spec_skip_vad(),
                    self.spec_run_segment_merge() == frame.spec_run_segment_merge(),
                    self.spec_pause_pending() == frame.spec_pause_pending(),
                    self.spec_use_context() == frame.spec_use_context(),
                    self.spec_voice_seen() == frame.spec_voice_seen(),
                    self.wf() == frame.wf(),
                decreases surplus - k,
            {
                let ghost pre_ws = self.working_set@;
                let seg = self.working_set.remove(0);
                confirm_from.push(seg);
                proof {
                    assert(self.working_set@ =~= pre_ws.skip(1));
                    assert(self.working_set@ =~= pre.skip(k + 1));
                    assert(confirm_from@ =~= pre.take(k + 1));
                }
                k = k + 1;
            }
            let out = self.confirmed.clone();
            proof {
                assert(segment_texts(confirm_from@) =~= segment_texts(pre).take(
                    surplus as int,
                ));
            }
            self.confirmed = confirm_transcription(out, &mut confirm_from);
            proof {
                lemma_confirm_trimmed(
                    old(self).spec_confirmed(),
                    segment_texts(pre).take(surplus as int),
                );
                assert(segment_texts(self.working_set@) =~= segment_texts(pre).skip(
                    surplus as int,
                ));
            }
        }
        // Publish the state as it now stands, unless there is nothing at
        // all to show yet.
        if self.confirmed.as_str().is_empty() && self.working_set.len() == 0 {
            proof {
                assert(segment_texts(self.working_set@) =~= Seq::<Seq<char>>::empty());
            }
            return DecodeDirective::Quiet;
        }
        let texts = working_texts(&self.working_set);
        let snap = TranscriptionSnapshot::new(self.confirmed.clone(), texts);
        DecodeDirective::Publish(snap)
    }

    /// Reconciles the one final decode of a slow stop into the working
    /// set. Unlike the in-loop merge, both sides of the deduplicated
    /// boundary are kept, so none of the last speech is dropped on
    /// shutdown.
    pub fn absorb_final_segments(&mut self, segments: Vec<RibbleWhisperSegment>)
        requires
            old(self).wf(),
        ensures
            final(self).wf(),
            final(self).spec_config() == old(self).spec_config(),
            final(self).spec_clock_ms() == old(self).spec_clock_ms(),
            final(self).spec_ring() == old(self).spec_ring(),
            final(self).spec_confirmed() == old(self).spec_confirmed(),
            segment_texts(final(self).spec_working_set()) == (if old(self).spec_run_segment_merge() {
                final_merge_texts(
                    segment_texts(old(self).spec_working_set()),
                    segment_texts(segments@),
                )
            } else {
                segment_texts(segments@)
            }),
    {
        let ghost ws0 = segment_texts(old(self).spec_working_set());
        let ghost new = segment_texts(segments@);
        if !self.run_segment_merge {
            self.working_set = segments;
            return ;
        }
        if segments.len() == 0 {
            proof {
                assert(new =~= Seq::<Seq<char>>::empty());
            }
            return ;
        }
        if self.working_set.len() == 0 {
            self.working_set = segments;
            return ;
        }
        let mut rest = segments;
        let mut first = rest.remove(0);
        proof {
            assert(rest@ =~= segments@.skip(1));
            assert(first.spec_text() == new[0]);
        }
        let popped = self.working_set.pop();
        match popped {
            Some(last0) => {
                let mut last = last0;
                match deduplicate_strings(last.text(), first.text()) {
                    None => {},
                    Some((l_str, r_str)) => {
                        let lt = trim(l_str.as_str()).to_owned();
                        let rt = trim(r_str.as_str()).to_owned();
                        last.replace_text(lt);
                        first.replace_text(rt);
                    },
                }
                self.working_set.push(last);
                self.working_set.push(first);
            },
            None => {
                proof {
                    assert(false);
                }
            },
        }
        let ghost mid = self.working_set@;
        let ghost frame = *self;
        while rest.len() > 0
            invariant
                self.working_set@ + rest@ == mid + segments@.skip(1),
                self.working_set@.len() >= mid.len(),
                self.spec_config() == frame.spec_config(),
                self.spec_ring() == frame.spec_ring(),
                self.spec_confirmed() == frame.spec_confirmed(),
                self.spec_clock_ms() == frame.spec_clock_ms(),
                self.spec_unvoiced_since_ms() == frame.spec_unvoiced_since_ms(),
                self.spec_skip_vad() == frame.spec_skip_vad(),
                self.spec_run_segment_merge() == frame.spec_run_segment_merge(),
                self.spec_pause_pending() == frame.spec_pause_pending(),
                self.spec_use_context() == frame.spec_use_context(),
                self.spec_voice_seen() == frame.spec_voice_seen(),
                self.wf() == frame.wf(),
            decreases rest@.len(),
        {
            let ghost pre_ws = self.working_set@;
            let ghost pre_rest = rest@;
            let seg = rest.remove(0);
            self.working_set.push(seg);
            proof {
                assert(rest@ =~= pre_rest.skip(1));
                assert(self.working_set@ + rest@ =~= pre_ws + pre_rest);
            }
        }
        proof {
            assert(self.working_set@ =~= self.working_set@ + rest@);
            assert(segment_texts(self.working_set@) =~= final_merge_texts(ws0, new));
        }
    }

    /// Ends the session: drains whatever remains of the working set into
    /// the confirmed prefix and returns the final transcript.
    pub fn finalize(&mut self) -> (r: String)
        requires
            old(self).wf(),
        ensures
            final(self).wf(),
            r@ == confirm_spec(
                old(self).spec_confirmed(),
                segment_texts(old(self).spec_working_set()),
            ),
            final(self).spec_confirmed() == r@,
            final(self).spec_working_set() == Seq::<RibbleWhisperSegment>::empty(),
            final(self).spec_config() == old(self).spec_config(),
            final(self).spec_ring() == old(self).spec_ring(),
    {
        let out = self.confirmed.clone();
        self.confirmed = confirm_transcription(out, &mut self.working_set);
        proof {
            lemma_confirm_trimmed(
                old(self).spec_confirmed(),
                segment_texts(old(self).spec_working_set()),
            );
            assert(self.working_set@ =~= Seq::<RibbleWhisperSegment>::empty());
        }
        self.confirmed.clone()
    }

    /// How much audio the ring currently holds, in whole milliseconds.
    pub fn buffered_audio_ms(&self) -> (r: usize)
        requires
            self.wf(),
        ensures
            r == self.spec_ring()@.len() as int * 1000 / self.spec_ring().spec_sample_rate(),
    {
        self.ring.get_audio_length_ms()
    }

    /// Whether the session has outlived its configured time bound.
    pub fn timed_out(&self) -> (r: bool)
        ensures
            r == (self.spec_config().session_timeout_ms > 0 && self.spec_clock_ms()
                > self.spec_config().session_timeout_ms),
    {
        self.config.session_timeout_ms > 0 && self.clock_ms > self.config.session_timeout_ms
    }
}

/// Copies the working-set texts out for a snapshot.
fn working_texts(working_set: &Vec<RibbleWhisperSegment>) -> (r: Vec<String>)
    ensures
        r.deep_view() == segment_texts(working_set@),
{
    let mut r: Vec<String> = Vec::new();
    let mut k: usize = 0;
    while k < working_set.len()
        invariant
            k <= working_set@.len(),
            r@.len() == k,
            forall|i: int| 0 <= i < k ==> r@[i]@ == working_set@[i].spec_text(),
        decreases working_set@.len() - k,
    {
        let seg: &RibbleWhisperSegment = &working_set[k];
        r.push(seg.text().to_owned());
        k = k + 1;
    }
    proof {
        assert forall|i: int| 0 <= i < r@.len() implies r.deep_view()[i] == segment_texts(
            working_set@,
        )[i] by {
            assert(r.deep_view()[i] == r@[i]@);
        }
        assert(r.deep_view() =~= segment_texts(working_set@));
    }
    r
}

/// Checks the ready state of a running transcriber from another thread.
/// The flag is shared: every clone of a handle observes the same state.
#[derive(Clone)]
pub struct RealtimeTranscriberHandle {
    ready: Arc<AtomicBool>,
}

impl RealtimeTranscriberHandle {
    /// A fresh handle whose flag starts out not ready.
    pub fn new() -> (r: Self) {
        RealtimeTranscriberHandle { ready: Arc::new(AtomicBool::new(false)) }
    }

    /// Whether the transcriber behind this handle has finished its setup
    /// and entered its streaming loop. Another thread may change the flag
    /// at any moment, so nothing more can be promised of the answer.
    pub fn ready(&self) -> bool {
        self.ready.load(Ordering::Acquire)
    }

    /// Records whether the transcriber behind this handle is ready.
    pub fn set_ready(&self, ready: bool) {
        self.ready.store(ready, Ordering::Release);
    }
}

} // verus!
