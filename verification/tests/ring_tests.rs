//! Behavior of the circular audio buffer.

use ribble_whisper::audio_ring_buffer::{AudioRingBuffer, AudioRingBufferBuilder};

fn ring_16k(capacity_ms: usize) -> AudioRingBuffer<i32> {
    AudioRingBufferBuilder::new()
        .with_capacity_ms(capacity_ms)
        .with_sample_rate(16000)
        .build()
        .expect("ring should build")
}

#[test]
fn builder_rejects_missing_fields() {
    assert!(AudioRingBufferBuilder::new().build::<i32>().is_err());
    assert!(AudioRingBufferBuilder::new()
        .with_capacity_ms(1000)
        .build::<i32>()
        .is_err());
    assert!(AudioRingBufferBuilder::new()
        .with_sample_rate(16000)
        .build::<i32>()
        .is_err());
}

#[test]
fn builder_rejects_zero_parameters() {
    assert!(AudioRingBufferBuilder::new()
        .with_capacity_ms(0)
        .with_sample_rate(16000)
        .build::<i32>()
        .is_err());
    assert!(AudioRingBufferBuilder::new()
        .with_capacity_ms(1000)
        .with_sample_rate(0)
        .build::<i32>()
        .is_err());
}

#[test]
fn builder_reports_parameters() {
    let ring = ring_16k(1000);
    assert_eq!(ring.get_capacity(), 16000);
    assert_eq!(ring.get_capacity_in_ms(), 1000);
    assert_eq!(ring.get_sample_rate(), 16000);
    assert_eq!(ring.get_audio_length(), 0);
    assert_eq!(ring.get_audio_length_ms(), 0);
}

#[test]
fn overflowing_write_keeps_last_capacity() {
    // A single write larger than the whole ring keeps exactly the newest
    // `capacity` samples.
    let mut ring = ring_16k(1000);
    let data: Vec<i32> = (1..=20000).collect();
    ring.push_audio(&data);
    assert_eq!(ring.get_audio_length(), 16000);
    let out = ring.read(0);
    assert_eq!(out.len(), 16000);
    assert_eq!(out[0], 4001);
    assert_eq!(out[15999], 20000);
}

#[test]
fn wraparound_keeps_newest_samples() {
    // Two chunks of 10 000 samples into a 16 000-sample ring: a full read
    // sees the last 16 000 in arrival order.
    let mut ring = ring_16k(1000);
    let first: Vec<i32> = (1..=10000).collect();
    let second: Vec<i32> = (10001..=20000).collect();
    ring.push_audio(&first);
    assert_eq!(ring.get_audio_length(), 10000);
    ring.push_audio(&second);
    assert_eq!(ring.get_audio_length(), 16000);
    let out = ring.read(1000);
    assert_eq!(out.len(), 16000);
    assert_eq!(out[0], 4001);
    assert_eq!(out[8000], 12001);
    assert_eq!(out[15999], 20000);
}

#[test]
fn zero_length_read_returns_whole_buffer() {
    let mut ring = ring_16k(1000);
    let data: Vec<i32> = (1..=4000).collect();
    ring.push_audio(&data);
    let out = ring.read(0);
    assert_eq!(out.len(), 4000);
    assert_eq!(out[0], 1);
    assert_eq!(out[3999], 4000);
}

#[test]
fn read_from_empty_ring_is_empty() {
    let ring = ring_16k(1000);
    assert!(ring.read(0).is_empty());
    assert!(ring.read(500).is_empty());
    let mut out = vec![7, 8, 9];
    ring.read_into(0, &mut out);
    assert!(out.is_empty());
}

#[test]
fn read_returns_most_recent_window() {
    let mut ring = ring_16k(1000);
    let data: Vec<i32> = (1..=16000).collect();
    ring.push_audio(&data);
    // 250 ms at 16 kHz is 4000 samples: the newest ones come back.
    let out = ring.read(250);
    assert_eq!(out.len(), 4000);
    assert_eq!(out[0], 12001);
    assert_eq!(out[3999], 16000);
}

#[test]
fn clear_forgets_everything() {
    let mut ring = ring_16k(1000);
    let data: Vec<i32> = (1..=16000).collect();
    ring.push_audio(&data);
    ring.clear();
    assert_eq!(ring.get_audio_length(), 0);
    assert!(ring.read(0).is_empty());
    // The ring stays usable after a clear.
    ring.push_audio(&[41, 42]);
    assert_eq!(ring.read(0), vec![41, 42]);
}

#[test]
fn clear_retain_keeps_most_recent_tail() {
    let mut ring = ring_16k(1000);
    let data: Vec<i32> = (1..=16000).collect();
    ring.push_audio(&data);
    // Retain 500 ms = 8000 samples: the newest half stays.
    ring.clear_from_back_retain_ms(500);
    assert_eq!(ring.get_audio_length(), 8000);
    assert_eq!(ring.get_audio_length_ms(), 500);
    let out = ring.read(0);
    assert_eq!(out[0], 8001);
    assert_eq!(out[7999], 16000);
}

#[test]
fn clear_retain_zero_clears_all() {
    let mut ring = ring_16k(1000);
    ring.push_audio(&[1, 2, 3]);
    ring.clear_from_back_retain_ms(0);
    assert_eq!(ring.get_audio_length(), 0);
}

#[test]
fn clear_n_ms_drops_oldest_audio() {
    let mut ring = ring_16k(1000);
    let data: Vec<i32> = (1..=16000).collect();
    ring.push_audio(&data);
    // Dropping 250 ms = 4000 samples leaves the newest 12000.
    ring.clear_n_ms_from_back(250);
    assert_eq!(ring.get_audio_length(), 12000);
    let out = ring.read(0);
    assert_eq!(out[0], 4001);
    assert_eq!(out[11999], 16000);
}

#[test]
fn default_ring_is_whisper_ready() {
    let ring: AudioRingBuffer<f32> = AudioRingBuffer::default();
    assert_eq!(ring.get_capacity_in_ms(), 10000);
    assert_eq!(ring.get_capacity(), 160000);
    assert_eq!(ring.get_sample_rate(), 16000);
    assert_eq!(ring.get_audio_length(), 0);
}
