//! The data carried through a transcription session: decoded segments,
//! published snapshots, and control phrases for a consumer.

use vstd::prelude::*;

use crate::text::{join_all, join_spaced, push_char};

verus! {

/// One contiguous text unit produced by the decoder over a window, with
/// coarse timestamps in centiseconds relative to the window start.
#[derive(Clone)]
pub struct RibbleWhisperSegment {
    text: String,
    start_time: i64,
    end_time: i64,
}

impl RibbleWhisperSegment {
    /// The segment text.
    pub closed spec fn spec_text(&self) -> Seq<char> {
        self.text@
    }

    /// Timestamp of the segment start, in centiseconds.
    pub closed spec fn spec_start(&self) -> i64 {
        self.start_time
    }

    /// Timestamp of the segment end, in centiseconds.
    pub closed spec fn spec_end(&self) -> i64 {
        self.end_time
    }

    /// A segment from its text and timestamps.
    pub fn new(text: String, start_time: i64, end_time: i64) -> (r: Self)
        ensures
            r.spec_text() == text@,
            r.spec_start() == start_time,
            r.spec_end() == end_time,
    {
        Self { text, start_time, end_time }
    }

    /// The segment text.
    pub fn text(&self) -> (r: &str)
        ensures
            r@ == self.spec_text(),
    {
        self.text.as_str()
    }

    /// Replaces the segment text, keeping the timestamps.
    pub fn replace_text(&mut self, new_text: String)
        ensures
            final(self).spec_text() == new_text@,
            final(self).spec_start() == old(self).spec_start(),
            final(self).spec_end() == old(self).spec_end(),
    {
        self.text = new_text;
    }

    /// Consumes the segment, returning its text.
    pub fn into_text(self) -> (r: String)
        ensures
            r@ == self.spec_text(),
    {
        self.text
    }

    /// Timestamp of the segment start, in centiseconds.
    pub fn start_timestamp(&self) -> (r: i64)
        ensures
            r == self.spec_start(),
    {
        self.start_time
    }

    /// Timestamp of the segment end, in centiseconds.
    pub fn end_timestamp(&self) -> (r: i64)
        ensures
            r == self.spec_end(),
    {
        self.end_time
    }
}

/// The state of a transcription at one point in time: the confirmed prefix
/// and the tentative tail, one string per working-set segment.
#[derive(Clone)]
pub struct TranscriptionSnapshot {
    confirmed: String,
    string_segments: Vec<String>,
}

impl TranscriptionSnapshot {
    /// The confirmed prefix.
    pub closed spec fn spec_confirmed(&self) -> Seq<char> {
        self.confirmed@
    }

    /// The tentative segment texts, in order.
    pub closed spec fn spec_segments(&self) -> Seq<Seq<char>> {
        self.string_segments.deep_view()
    }

    /// A snapshot from its parts.
    pub fn new(confirmed: String, string_segments: Vec<String>) -> (r: Self)
        ensures
            r.spec_confirmed() == confirmed@,
            r.spec_segments() == string_segments.deep_view(),
    {
        Self { confirmed, string_segments }
    }

    /// The confirmed prefix.
    pub fn confirmed(&self) -> (r: &str)
        ensures
            r@ == self.spec_confirmed(),
    {
        self.confirmed.as_str()
    }

    /// The tentative segment texts, in order.
    pub fn string_segments(&self) -> (r: &Vec<String>)
        ensures
            r.deep_view() == self.spec_segments(),
    {
        &self.string_segments
    }

    /// Consumes the snapshot, returning its parts.
    pub fn into_parts(self) -> (r: (String, Vec<String>))
        ensures
            r.0@ == self.spec_confirmed(),
            r.1.deep_view() == self.spec_segments(),
    {
        (self.confirmed, self.string_segments)
    }

    /// Consumes the snapshot, rendering it as the confirmed prefix followed
    /// by the space-joined tentative texts.
    pub fn into_string(self) -> (r: String)
        ensures
            r@ == self.spec_confirmed() + seq![' '] + join_spaced(self.spec_segments()),
    {
        let tail = join_all(&self.string_segments);
        let mut out = self.confirmed;
        push_char(&mut out, ' ');
        out.append(tail.as_str());
        out
    }
}

impl Default for TranscriptionSnapshot {
    /// An empty snapshot: nothing confirmed, nothing tentative.
    fn default() -> (r: Self)
        ensures
            r.spec_confirmed() == Seq::<char>::empty(),
            r.spec_segments() == Seq::<Seq<char>>::empty(),
    {
        let r = Self { confirmed: String::new(), string_segments: Vec::new() };
        proof {
            assert(r.spec_segments() =~= Seq::<Seq<char>>::empty());
        }
        r
    }
}

/// A set of control phrases passing session state from the transcriber to a
/// consumer.
#[derive(Clone)]
pub enum WhisperControlPhrase {
    /// The default ready state.
    Idle,
    /// Preparing the decoder for transcription.
    GettingReady,
    /// The decoder is set up and the streaming loop is running.
    StartSpeaking,
    /// The loop is decoding audio.
    Running,
    /// An unvoiced stretch has lasted past the pause timeout.
    PauseDetected,
    /// The session time has exceeded its configured bound.
    TimeoutElapsed,
    /// A final decode pass is running over the remaining audio.
    SlowStopping,
    /// The session has ended and the final transcript follows.
    Ended,
    /// A free-form message for diagnostics.
    Debug(String),
}

/// The display text of a control phrase.
pub open spec fn phrase_text(p: &WhisperControlPhrase) -> Seq<char> {
    match p {
        WhisperControlPhrase::Idle => "[IDLE]"@,
        WhisperControlPhrase::GettingReady => "[GETTING_READY]"@,
        WhisperControlPhrase::StartSpeaking => "[START SPEAKING]"@,
        WhisperControlPhrase::Running => "[RUNNING]"@,
        WhisperControlPhrase::PauseDetected => "[PAUSE DETECTED]"@,
        WhisperControlPhrase::TimeoutElapsed => "[TRANSCRIPTION TIMEOUT]"@,
        WhisperControlPhrase::SlowStopping => "[CLEANING UP]"@,
        WhisperControlPhrase::Ended => "[END TRANSCRIPTION]"@,
        WhisperControlPhrase::Debug(msg) => "Debug: "@ + msg@,
    }
}

impl WhisperControlPhrase {
    /// Renders the phrase for a user-facing log or display.
    pub fn to_display_string(self) -> (r: String)
        ensures
            r@ == phrase_text(&self),
    {
        match self {
            WhisperControlPhrase::Idle => "[IDLE]".to_owned(),
            WhisperControlPhrase::GettingReady => "[GETTING_READY]".to_owned(),
            WhisperControlPhrase::StartSpeaking => "[START SPEAKING]".to_owned(),
            WhisperControlPhrase::Running => "[RUNNING]".to_owned(),
            WhisperControlPhrase::PauseDetected => "[PAUSE DETECTED]".to_owned(),
            WhisperControlPhrase::TimeoutElapsed => "[TRANSCRIPTION TIMEOUT]".to_owned(),
            WhisperControlPhrase::SlowStopping => "[CLEANING UP]".to_owned(),
            WhisperControlPhrase::Ended => "[END TRANSCRIPTION]".to_owned(),
            WhisperControlPhrase::Debug(msg) => {
                let mut out = "Debug: ".to_owned();
                out.append(msg.as_str());
                out
            },
        }
    }
}

impl Default for WhisperControlPhrase {
    /// The ready state.
    fn default() -> (r: Self)
        ensures
            r is Idle,
    {
        WhisperControlPhrase::Idle
    }
}

/// One message on the output channel: either a full snapshot of the
/// transcription, or a control phrase.
#[derive(Clone)]
pub enum WhisperOutput {
    TranscriptionSnapshot(TranscriptionSnapshot),
    /// Running state and control messages from the transcriber.
    ControlPhrase(WhisperControlPhrase),
}

impl WhisperOutput {
    /// Consumes the output, rendering either payload as text.
    pub fn into_inner(self) -> (r: String)
        ensures
            match self {
                WhisperOutput::TranscriptionSnapshot(snapshot) => r@ == snapshot.spec_confirmed()
                    + seq![' '] + join_spaced(snapshot.spec_segments()),
                WhisperOutput::ControlPhrase(phrase) => r@ == phrase_text(&phrase),
            },
    {
        match self {
            WhisperOutput::TranscriptionSnapshot(snapshot) => snapshot.into_string(),
            WhisperOutput::ControlPhrase(phrase) => phrase.to_display_string(),
        }
    }
}

} // verus!
