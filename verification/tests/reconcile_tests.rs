//! Behavior of the segment reconciler and its deduplication primitive.

use ribble_whisper::reconcile::{
    blend_segments, confirm_transcription, deduplicate_strings, find_closest_match, run_stride,
    similarity_permille, split_text,
};
use ribble_whisper::transcriber::RibbleWhisperSegment;

fn seg(text: &str) -> RibbleWhisperSegment {
    RibbleWhisperSegment::new(text.to_string(), 0, 100)
}

#[test]
fn similarity_of_equal_strings_is_full() {
    assert_eq!(similarity_permille("jumps", "jumps"), 1000);
    assert_eq!(similarity_permille("", ""), 1000);
}

#[test]
fn similarity_of_disjoint_strings_is_low() {
    assert_eq!(similarity_permille("", "second"), 0);
    assert_eq!(similarity_permille("first", ""), 0);
    // "kitten" -> "sitting" takes three edits over seven characters.
    assert_eq!(similarity_permille("kitten", "sitting"), 1000 * 4 / 7);
    assert!(similarity_permille("alpha", "delta") < 900);
}

#[test]
fn closest_match_prefers_later_ties() {
    // The same token appears twice on the left: the later pair wins, which
    // matters for naturally repeated words.
    let left = vec!["a".to_string(), "b".to_string(), "a".to_string()];
    let right = vec!["a".to_string()];
    assert_eq!(find_closest_match(&left, &right), Some((2, 0)));
}

#[test]
fn closest_match_rejects_dissimilar_windows() {
    let left = vec!["alpha".to_string(), "beta".to_string()];
    let right = vec!["delta".to_string(), "epsilon".to_string()];
    assert_eq!(find_closest_match(&left, &right), None);
}

#[test]
fn stride_extends_over_equal_runs() {
    let left = vec!["x".to_string(), "b".to_string(), "c".to_string()];
    let right = vec!["b".to_string(), "c".to_string(), "zzz".to_string()];
    // Starting at the matched pair ("b", "b"), the stride runs to the end
    // of the left buffer.
    assert_eq!(run_stride(&left, 1, &right, 0), (3, 2));
}

#[test]
fn split_text_windows_the_boundary() {
    let (l, r) = split_text("one two three four five six seven", "a b c d e f g");
    // The left window keeps the last five tokens, the head collapses.
    assert_eq!(l.len(), 6);
    assert_eq!(l[0], "one two");
    assert_eq!(l[5], "seven");
    // The right window keeps the first five tokens, the tail collapses.
    assert_eq!(r.len(), 6);
    assert_eq!(r[4], "e");
    assert_eq!(r[5], "f g");
}

#[test]
fn split_text_keeps_short_texts_whole() {
    let (l, r) = split_text("one two", "");
    assert_eq!(l, vec!["one".to_string(), "two".to_string()]);
    assert_eq!(r, vec![String::new()]);
}

#[test]
fn dedup_accepts_shared_boundary() {
    // The overlap stays on the left exactly once; the right keeps only its
    // new tail.
    let (l, r) = deduplicate_strings("the quick brown fox jumps", "brown fox jumps over the lazy")
        .expect("overlapping texts should deduplicate");
    assert_eq!(l, "the quick brown fox jumps");
    assert_eq!(r, "over the lazy");
    assert_eq!(format!("{l} {r}"), "the quick brown fox jumps over the lazy");
}

#[test]
fn dedup_rejects_unrelated_texts() {
    assert!(deduplicate_strings("alpha beta gamma", "delta epsilon zeta").is_none());
}

#[test]
fn dedup_passes_empty_sides_through() {
    let (l, r) = deduplicate_strings("", "some words").expect("empty left passes through");
    assert_eq!(l, "");
    assert_eq!(r, "some words");
    let (l, r) = deduplicate_strings("some words", "").expect("empty right passes through");
    assert_eq!(l, "some words");
    assert_eq!(r, "");
}

#[test]
fn blend_preserves_boundary_word() {
    // The right side had more than five tokens, so the left absorbs the one
    // boundary word just past the matched stride.
    let mut left = seg("one two three four five six");
    let right = seg("five six seven eight nine ten eleven");
    blend_segments(&mut left, &right);
    assert_eq!(left.text(), "one two three four five six seven");
}

#[test]
fn blend_is_identity_on_empty_right() {
    let mut left = seg("keep me whole");
    let right = seg("");
    blend_segments(&mut left, &right);
    assert_eq!(left.text(), "keep me whole");
}

#[test]
fn blend_takes_right_on_empty_left() {
    let mut left = seg("");
    let right = seg("fresh words");
    blend_segments(&mut left, &right);
    assert_eq!(left.text(), "fresh words");
}

#[test]
fn blend_keeps_left_when_nothing_matches() {
    let mut left = seg("alpha beta gamma");
    let right = seg("delta epsilon zeta");
    blend_segments(&mut left, &right);
    assert_eq!(left.text(), "alpha beta gamma");
}

#[test]
fn confirm_joins_into_empty_prefix() {
    let mut ws = vec![seg("hello there"), seg("general greeting")];
    let out = confirm_transcription(String::new(), &mut ws);
    assert_eq!(out, "hello there general greeting");
    assert!(ws.is_empty());
}

#[test]
fn confirm_deduplicates_against_prefix_tail() {
    let mut ws = vec![seg("brown fox jumps over the lazy")];
    let out = confirm_transcription("the quick brown fox jumps".to_string(), &mut ws);
    assert_eq!(out, "the quick brown fox jumps over the lazy");
    assert!(ws.is_empty());
}

#[test]
fn confirm_concatenates_on_rejection() {
    let mut ws = vec![seg("delta epsilon zeta")];
    let out = confirm_transcription("alpha beta gamma".to_string(), &mut ws);
    assert_eq!(out, "alpha beta gamma delta epsilon zeta");
}

#[test]
fn confirm_keeps_prefix_when_set_is_empty() {
    let mut ws: Vec<RibbleWhisperSegment> = Vec::new();
    let out = confirm_transcription("all done".to_string(), &mut ws);
    assert_eq!(out, "all done");
}

#[test]
fn confirm_trims_its_result() {
    let mut ws = vec![seg(" padded segment ")];
    let out = confirm_transcription(String::new(), &mut ws);
    assert_eq!(out, "padded segment");
}
