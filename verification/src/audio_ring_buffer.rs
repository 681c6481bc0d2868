//! A fixed-capacity circular PCM buffer.
//!
//! The buffer keeps the most recent `capacity` samples pushed into it. Writes
//! overwrite the oldest samples once the buffer is full; reads return the most
//! recent samples in arrival order. The backing store grows lazily up to the
//! fixed capacity, so no fill value is needed at construction time.

use vstd::prelude::*;
use vstd::slice::slice_index_get;

use crate::error::RibbleWhisperError;

verus! {

/// Default ring capacity in milliseconds (ten seconds of audio).
pub const AUDIO_BUFFER_CAPACITY: usize = 10000;

/// Number of whole samples that cover `ms` milliseconds at `rate` samples
/// per second.
pub open spec fn samples_for_ms(ms: int, rate: int) -> int {
    ms * rate / 1000
}

/// `x - cap` if `x` has run past the end of a `cap`-sized ring, else `x`.
/// Stands in for `x % cap` on the range `0 <= x < 2 * cap`.
pub open spec fn ring_wrap(x: int, cap: int) -> int {
    if x >= cap {
        x - cap
    } else {
        x
    }
}

/// The last `cap` elements of `contents + input`: what a `cap`-sized ring
/// holds after `input` is appended to `contents`.
pub open spec fn ring_append<T>(contents: Seq<T>, input: Seq<T>, cap: int) -> Seq<T> {
    let total = contents + input;
    if total.len() <= cap {
        total
    } else {
        total.subrange(total.len() - cap, total.len() as int)
    }
}

/// Appending one element at a time is the same as appending a whole sequence.
proof fn lemma_ring_append_one<T>(contents: Seq<T>, input: Seq<T>, s: T, cap: int)
    requires
        0 < cap,
    ensures
        ring_append(ring_append(contents, input, cap), seq![s], cap) == ring_append(
            contents,
            input + seq![s],
            cap,
        ),
{
    let inner = ring_append(contents, input, cap);
    assert(ring_append(inner, seq![s], cap) =~= ring_append(contents, input + seq![s], cap));
}

/// A fixed-capacity circular audio buffer. The generic parameter is the
/// sample type; the engine itself never inspects sample values.
pub struct AudioRingBuffer<T> {
    /// Backing store; grows up to `capacity` and is then reused in place.
    buffer: Vec<T>,
    /// Insertion cursor: the slot the next sample is written to.
    head: usize,
    /// How many of the stored samples are currently valid.
    audio_len: usize,
    /// Fixed capacity in samples.
    capacity: usize,
    /// Fixed capacity in milliseconds.
    capacity_ms: usize,
    /// Samples per second.
    sample_rate: usize,
}

impl<T> View for AudioRingBuffer<T> {
    type V = Seq<T>;

    /// The valid samples in arrival order, oldest first.
    closed spec fn view(&self) -> Seq<T> {
        Seq::new(
            self.audio_len as nat,
            |i: int|
                self.buffer@[ring_wrap(
                    self.head + self.capacity - self.audio_len + i,
                    self.capacity as int,
                )],
        )
    }
}

impl<T: Copy> AudioRingBuffer<T> {
    /// Internal consistency: the cursor and the valid length always describe
    /// a window of initialized slots of the backing store.
    pub closed spec fn wf(&self) -> bool {
        &&& self.capacity == samples_for_ms(self.capacity_ms as int, self.sample_rate as int)
        &&& 0 < self.capacity
        &&& 0 < self.capacity_ms
        &&& 0 < self.sample_rate
        &&& self.capacity_ms * self.sample_rate <= usize::MAX
        &&& self.buffer@.len() <= self.capacity
        &&& self.head <= self.buffer@.len()
        &&& self.head < self.capacity
        &&& self.audio_len <= self.buffer@.len()
        &&& (self.buffer@.len() < self.capacity ==> self.audio_len <= self.head)
    }

    /// Fixed capacity in samples.
    pub closed spec fn spec_capacity(&self) -> int {
        self.capacity as int
    }

    /// Fixed capacity in milliseconds.
    pub closed spec fn spec_capacity_ms(&self) -> int {
        self.capacity_ms as int
    }

    /// Samples per second.
    pub closed spec fn spec_sample_rate(&self) -> int {
        self.sample_rate as int
    }

    /// Position of the insertion cursor.
    pub closed spec fn spec_head(&self) -> int {
        self.head as int
    }

    /// How many samples a read of `len_ms` milliseconds returns: the
    /// requested span (the whole capacity for zero), limited by what is
    /// stored.
    pub open spec fn spec_read_len(&self, len_ms: int) -> int {
        let want = samples_for_ms(
            if len_ms == 0 {
                self.spec_capacity_ms()
            } else {
                len_ms
            },
            self.spec_sample_rate(),
        );
        if want <= self@.len() as int {
            want
        } else {
            self@.len() as int
        }
    }

    /// What a read of `len_ms` milliseconds returns: the most recent samples
    /// in chronological order.
    pub open spec fn spec_read(&self, len_ms: int) -> Seq<T> {
        self@.subrange(self@.len() - self.spec_read_len(len_ms), self@.len() as int)
    }

    /// A well-formed ring never holds more valid samples than its capacity,
    /// and its capacity is the sample count its builder was asked for.
    pub proof fn lemma_valid_length_bounded(&self)
        requires
            self.wf(),
        ensures
            self@.len() <= self.spec_capacity(),
            self.spec_capacity() == samples_for_ms(self.spec_capacity_ms(), self.spec_sample_rate()),
            0 < self.spec_capacity(),
            0 < self.spec_sample_rate(),
            0 < self.spec_capacity_ms(),
    {
    }

    /// Currently stored audio length, in samples.
    pub fn get_audio_length(&self) -> (r: usize)
        requires
            self.wf(),
        ensures
            r == self@.len(),
    {
        self.audio_len
    }

    /// Currently stored audio length, in whole milliseconds.
    pub fn get_audio_length_ms(&self) -> (r: usize)
        requires
            self.wf(),
        ensures
            r == self@.len() as int * 1000 / self.spec_sample_rate(),
    {
        proof {
            assert(self.audio_len * 1000 <= self.capacity_ms * self.sample_rate) by (nonlinear_arith)
                requires
                    self.audio_len <= self.capacity,
                    self.capacity == self.capacity_ms * self.sample_rate / 1000,
                    0 < self.sample_rate,
                    0 < self.capacity_ms,
            {
            }
        }
        (self.audio_len * 1000) / self.sample_rate
    }

    /// Ring capacity, in milliseconds.
    pub fn get_capacity_in_ms(&self) -> (r: usize)
        ensures
            r == self.spec_capacity_ms(),
    {
        self.capacity_ms
    }

    /// Ring capacity, in samples.
    pub fn get_capacity(&self) -> (r: usize)
        ensures
            r == self.spec_capacity(),
    {
        self.capacity
    }

    /// Current position of the write cursor.
    pub fn get_head_position(&self) -> (r: usize)
        ensures
            r == self.spec_head(),
    {
        self.head
    }

    /// Samples per second.
    pub fn get_sample_rate(&self) -> (r: usize)
        ensures
            r == self.spec_sample_rate(),
    {
        self.sample_rate
    }

    /// Forgets all stored audio. The backing store is not zeroed.
    pub fn clear(&mut self)
        requires
            old(self).wf(),
        ensures
            final(self).wf(),
            final(self)@ == Seq::<T>::empty(),
            final(self).spec_capacity() == old(self).spec_capacity(),
            final(self).spec_capacity_ms() == old(self).spec_capacity_ms(),
            final(self).spec_sample_rate() == old(self).spec_sample_rate(),
    {
        self.head = 0;
        self.audio_len = 0;
        proof {
            assert(self@ =~= Seq::<T>::empty());
        }
    }

    /// The capacity leaves a thousandfold headroom below `usize::MAX`, so
    /// cursor arithmetic cannot overflow.
    proof fn lemma_capacity_headroom(&self)
        requires
            self.wf(),
        ensures
            self.capacity * 1000 <= usize::MAX,
    {
        assert(self.capacity * 1000 <= self.capacity_ms * self.sample_rate) by (nonlinear_arith)
            requires
                self.capacity == self.capacity_ms * self.sample_rate / 1000,
                0 < self.capacity_ms,
                0 < self.sample_rate,
        {
        }
    }

    /// Writes one sample at the cursor, growing the backing store if it has
    /// not reached capacity yet.
    fn push_one(&mut self, s: T)
        requires
            old(self).wf(),
        ensures
            final(self).wf(),
            final(self)@ == ring_append(old(self)@, seq![s], old(self).spec_capacity()),
            final(self).spec_capacity() == old(self).spec_capacity(),
            final(self).spec_capacity_ms() == old(self).spec_capacity_ms(),
            final(self).spec_sample_rate() == old(self).spec_sample_rate(),
    {
        proof {
            self.lemma_capacity_headroom();
        }
        if self.head < self.buffer.len() {
            self.buffer.set(self.head, s);
        } else {
            self.buffer.push(s);
        }
        if self.audio_len < self.capacity {
            self.audio_len = self.audio_len + 1;
        }
        self.head = if self.head + 1 == self.capacity {
            0
        } else {
            self.head + 1
        };
        proof {
            assert(self@ =~= ring_append(old(self)@, seq![s], old(self).spec_capacity()));
        }
    }

    /// Appends the given samples. If more samples are pushed than the ring
    /// can hold, only the most recent `capacity` samples are retained.
    pub fn push_audio(&mut self, input: &[T])
        requires
            old(self).wf(),
        ensures
            final(self).wf(),
            final(self)@ == ring_append(old(self)@, input@, old(self).spec_capacity()),
            final(self).spec_capacity() == old(self).spec_capacity(),
            final(self).spec_capacity_ms() == old(self).spec_capacity_ms(),
            final(self).spec_sample_rate() == old(self).spec_sample_rate(),
    {
        let n = input.len();
        let mut i: usize = 0;
        proof {
            assert(self@ =~= ring_append(old(self)@, input@.take(0), old(self).spec_capacity()));
        }
        while i < n
            invariant
                i <= n,
                n == input@.len(),
                self.wf(),
                self@ == ring_append(old(self)@, input@.take(i as int), old(self).spec_capacity()),
                self.spec_capacity() == old(self).spec_capacity(),
                self.spec_capacity_ms() == old(self).spec_capacity_ms(),
                self.spec_sample_rate() == old(self).spec_sample_rate(),
            decreases n - i,
        {
            let s = *slice_index_get(input, i);
            self.push_one(s);
            proof {
                lemma_ring_append_one(
                    old(self)@,
                    input@.take(i as int),
                    input@[i as int],
                    old(self).spec_capacity(),
                );
                assert(input@.take(i as int) + seq![input@[i as int]] =~= input@.take(i + 1));
            }
            i = i + 1;
        }
        proof {
            assert(input@.take(n as int) =~= input@);
        }
    }

    /// The number of samples that a read or trim of `ms` milliseconds spans:
    /// the requested span, limited by what the ring currently holds.
    fn samples_within_ms(&self, ms: usize) -> (n: usize)
        requires
            self.wf(),
        ensures
            n == if samples_for_ms(ms as int, self.spec_sample_rate()) <= self@.len() as int {
                samples_for_ms(ms as int, self.spec_sample_rate())
            } else {
                self@.len() as int
            },
    {
        match ms.checked_mul(self.sample_rate) {
            Some(p) => {
                let want = p / 1000;
                if want > self.audio_len {
                    self.audio_len
                } else {
                    want
                }
            },
            None => {
                proof {
                    assert(self.audio_len * 1000 <= ms * self.sample_rate) by (nonlinear_arith)
                        requires
                            self.audio_len <= self.capacity,
                            self.capacity == self.capacity_ms * self.sample_rate / 1000,
                            self.capacity_ms * self.sample_rate <= usize::MAX,
                            usize::MAX < ms * self.sample_rate,
                            0 < self.sample_rate,
                            0 < self.capacity_ms,
                    {
                    }
                    assert(self.audio_len <= samples_for_ms(
                        ms as int,
                        self.sample_rate as int,
                    )) by (nonlinear_arith)
                        requires
                            self.audio_len * 1000 <= ms * self.sample_rate,
                    {
                    }
                }
                self.audio_len
            },
        }
    }

    /// Copies the most recent `min(len_ms, stored audio)` milliseconds of
    /// samples into `result` in chronological order. A `len_ms` of zero reads
    /// the whole buffer.
    pub fn read_into(&self, len_ms: usize, result: &mut Vec<T>)
        requires
            self.wf(),
        ensures
            final(result)@ == self.spec_read(len_ms as int),
            final(result)@.len() == self.spec_read_len(len_ms as int),
    {
        let ms = if len_ms == 0 {
            self.capacity_ms
        } else {
            len_ms
        };
        let n = self.samples_within_ms(ms);
        result.clear();
        proof {
            self.lemma_capacity_headroom();
        }
        let mut i: usize = 0;
        while i < n
            invariant
                i <= n,
                self.wf(),
                n <= self.audio_len,
                self.capacity * 1000 <= usize::MAX,
                result@ == self@.subrange(
                    self@.len() - n,
                    self@.len() - n + i,
                ),
            decreases n - i,
        {
            let x = self.head + self.capacity - n + i;
            let pos = if x >= self.capacity {
                x - self.capacity
            } else {
                x
            };
            proof {
                assert(pos == ring_wrap(
                    self.head + self.capacity - self.audio_len + (self.audio_len - n + i),
                    self.capacity as int,
                ));
                assert(pos < self.buffer@.len());
            }
            let s = self.buffer[pos];
            result.push(s);
            proof {
                assert(result@ =~= self@.subrange(
                    self@.len() - n,
                    self@.len() - n + (i + 1),
                ));
            }
            i = i + 1;
        }
        proof {
            assert(result@ =~= self@.subrange(self@.len() - n, self@.len() as int));
        }
    }

    /// Reads the most recent `min(len_ms, stored audio)` milliseconds of
    /// samples and returns them as a fresh vector. A `len_ms` of zero reads
    /// the whole buffer.
    pub fn read(&self, len_ms: usize) -> (result: Vec<T>)
        requires
            self.wf(),
        ensures
            result@ == self.spec_read(len_ms as int),
            result@.len() == self.spec_read_len(len_ms as int),
    {
        let mut buf = Vec::new();
        self.read_into(len_ms, &mut buf);
        buf
    }

    /// Logically drops everything but the most recent `len_ms` milliseconds
    /// of audio. A `len_ms` of zero clears the ring outright.
    pub fn clear_from_back_retain_ms(&mut self, len_ms: usize)
        requires
            old(self).wf(),
        ensures
            final(self).wf(),
            final(self)@ == ({
                let want = if len_ms == 0 {
                    0
                } else {
                    samples_for_ms(len_ms as int, old(self).spec_sample_rate())
                };
                let n = if want <= old(self)@.len() as int {
                    want
                } else {
                    old(self)@.len() as int
                };
                old(self)@.subrange(old(self)@.len() - n, old(self)@.len() as int)
            }),
            final(self).spec_capacity() == old(self).spec_capacity(),
            final(self).spec_capacity_ms() == old(self).spec_capacity_ms(),
            final(self).spec_sample_rate() == old(self).spec_sample_rate(),
    {
        if len_ms == 0 {
            self.clear();
            proof {
                assert(Seq::<T>::empty() =~= old(self)@.subrange(
                    old(self)@.len() as int,
                    old(self)@.len() as int,
                ));
            }
            return ;
        }
        let n = self.samples_within_ms(len_ms);
        self.audio_len = n;
        proof {
            assert(self@ =~= old(self)@.subrange(old(self)@.len() - n, old(self)@.len() as int));
        }
    }

    /// Logically drops the `len_ms` oldest milliseconds of audio, keeping the
    /// most recent remainder in place. A `len_ms` of zero is a no-op.
    pub fn clear_n_ms_from_back(&mut self, len_ms: usize)
        requires
            old(self).wf(),
        ensures
            final(self).wf(),
            final(self)@ == ({
                let want = if len_ms == 0 {
                    0
                } else {
                    samples_for_ms(len_ms as int, old(self).spec_sample_rate())
                };
                let n = if want <= old(self)@.len() as int {
                    want
                } else {
                    old(self)@.len() as int
                };
                old(self)@.subrange(n, old(self)@.len() as int)
            }),
            final(self).spec_capacity() == old(self).spec_capacity(),
            final(self).spec_capacity_ms() == old(self).spec_capacity_ms(),
            final(self).spec_sample_rate() == old(self).spec_sample_rate(),
    {
        if len_ms == 0 {
            return ;
        }
        let n = self.samples_within_ms(len_ms);
        self.audio_len = self.audio_len - n;
        proof {
            assert(self@ =~= old(self)@.subrange(n as int, old(self)@.len() as int));
        }
    }
}

/// Builder for an [`AudioRingBuffer`]: capacity in milliseconds and sample
/// rate in Hz must both be set and nonzero.
pub struct AudioRingBufferBuilder {
    capacity_ms: Option<usize>,
    sample_rate: Option<usize>,
}

/// Whether a ring can be built from the requested capacity and rate: both
/// set and nonzero, with a sample count that is positive and representable.
pub open spec fn buildable(capacity_ms: Option<usize>, sample_rate: Option<usize>) -> bool {
    match (capacity_ms, sample_rate) {
        (Some(ms), Some(rate)) => {
            &&& 0 < ms
            &&& 0 < rate
            &&& ms * rate <= usize::MAX
            &&& 1000 <= ms * rate
        },
        _ => false,
    }
}

impl AudioRingBufferBuilder {
    /// Requested capacity in milliseconds, if set.
    pub closed spec fn spec_capacity_ms(&self) -> Option<usize> {
        self.capacity_ms
    }

    /// Requested sample rate in Hz, if set.
    pub closed spec fn spec_sample_rate(&self) -> Option<usize> {
        self.sample_rate
    }

    /// A builder with nothing set yet.
    pub fn new() -> (r: Self)
        ensures
            r.spec_capacity_ms() is None,
            r.spec_sample_rate() is None,
    {
        Self { capacity_ms: None, sample_rate: None }
    }

    /// Sets the requested capacity, measured in milliseconds.
    pub fn with_capacity_ms(self, capacity_ms: usize) -> (r: Self)
        ensures
            r.spec_capacity_ms() == Some(capacity_ms),
            r.spec_sample_rate() == self.spec_sample_rate(),
    {
        Self { capacity_ms: Some(capacity_ms), ..self }
    }

    /// Sets the requested sample rate, measured in Hz.
    pub fn with_sample_rate(self, sample_rate: usize) -> (r: Self)
        ensures
            r.spec_sample_rate() == Some(sample_rate),
            r.spec_capacity_ms() == self.spec_capacity_ms(),
    {
        Self { sample_rate: Some(sample_rate), ..self }
    }

    /// Builds an empty ring with the requested parameters. Fails with a
    /// parameter error exactly when the capacity or sample rate is missing,
    /// zero, or works out to a sample count that is zero or unrepresentable.
    pub fn build<T: Copy>(self) -> (r: Result<AudioRingBuffer<T>, RibbleWhisperError>)
        ensures
            r is Ok <==> buildable(self.spec_capacity_ms(), self.spec_sample_rate()),
            match r {
                Ok(ring) => {
                    &&& ring.wf()
                    &&& ring@ == Seq::<T>::empty()
                    &&& Some(ring.spec_capacity_ms() as usize) == self.spec_capacity_ms()
                    &&& Some(ring.spec_sample_rate() as usize) == self.spec_sample_rate()
                },
                Err(e) => e is ParameterError,
            },
    {
        let ms = match self.capacity_ms {
            Some(ms) => ms,
            None => {
                return Err(
                    RibbleWhisperError::ParameterError(
                        "AudioRingBufferBuilder has no capacity set.".to_owned(),
                    ),
                );
            },
        };
        let rate = match self.sample_rate {
            Some(rate) => rate,
            None => {
                return Err(
                    RibbleWhisperError::ParameterError(
                        "AudioRingBufferBuilder has no sample rate set.".to_owned(),
                    ),
                );
            },
        };
        if ms == 0 {
            return Err(
                RibbleWhisperError::ParameterError(
                    "AudioRingBufferBuilder has zero-length buffer.".to_owned(),
                ),
            );
        }
        if rate == 0 {
            return Err(
                RibbleWhisperError::ParameterError(
                    "AudioRingBufferBuilder has zero-size sample rate.".to_owned(),
                ),
            );
        }
        let prod = match ms.checked_mul(rate) {
            Some(p) => p,
            None => {
                return Err(
                    RibbleWhisperError::ParameterError(
                        "AudioRingBufferBuilder capacity does not fit in memory.".to_owned(),
                    ),
                );
            },
        };
        let capacity = prod / 1000;
        if capacity == 0 {
            return Err(
                RibbleWhisperError::ParameterError(
                    "AudioRingBufferBuilder capacity is under one sample.".to_owned(),
                ),
            );
        }
        let ring = AudioRingBuffer {
            buffer: Vec::new(),
            head: 0,
            audio_len: 0,
            capacity,
            capacity_ms: ms,
            sample_rate: rate,
        };
        proof {
            assert(ring@ =~= Seq::<T>::empty());
        }
        Ok(ring)
    }
}

impl<T: Copy> Default for AudioRingBuffer<T> {
    /// An empty ring ready for the acoustic model: ten seconds of audio at
    /// the model's sample rate.
    fn default() -> (r: Self)
        ensures
            r.wf(),
            r@ == Seq::<T>::empty(),
            r.spec_capacity_ms() == AUDIO_BUFFER_CAPACITY as int,
            r.spec_sample_rate() == crate::WHISPER_SAMPLE_RATE as int,
    {
        let r = AudioRingBuffer {
            buffer: Vec::new(),
            head: 0,
            audio_len: 0,
            capacity: 160000,
            capacity_ms: AUDIO_BUFFER_CAPACITY,
            sample_rate: crate::WHISPER_SAMPLE_RATE,
        };
        proof {
            assert(r@ =~= Seq::<T>::empty());
        }
        r
    }
}

impl Default for AudioRingBufferBuilder {
    /// Same as [`AudioRingBufferBuilder::new`]: nothing set yet.
    fn default() -> (r: Self)
        ensures
            r.spec_capacity_ms() is None,
            r.spec_sample_rate() is None,
    {
        Self::new()
    }
}

} // verus!
