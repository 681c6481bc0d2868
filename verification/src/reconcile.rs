//! Merging overlapping decoder outputs without duplicating or losing words.
//!
//! Consecutive decode windows overlap, so consecutive outputs share text near
//! their boundary. The primitive here finds the best-matching token pair
//! between the tail of the earlier text and the head of the later one under a
//! normalized edit-distance similarity, extends it to a matched stride, and
//! removes the second copy of the overlap. Scores are integers in
//! thousandths: `1000` means identical.

use vstd::prelude::*;
use vstd::slice::{slice_index_get, slice_subrange};

use crate::text::{
    join_all, join_spaced, lemma_join_spaced_concat, lemma_join_split_identity,
    lemma_split_spaces_len, lemma_trim_concat_keeps_prefix, lemma_trim_spaces_clean, push_char,
    split_all, split_spaces, trim, trim_spaces,
};
use crate::transcriber::RibbleWhisperSegment;

verus! {

/// How many tokens of each side take part in boundary matching.
pub const N_TOKENS: usize = 5;

/// Similarity floor for selecting the best match pair, in thousandths.
pub const MATCH_HIGH: u32 = 900;

/// Similarity floor for extending the matched stride, in thousandths.
pub const MATCH_MED: u32 = 850;

/// Edit distance between two strings, as a function of their characters
/// alone.
pub uninterp spec fn edit_distance(a: Seq<char>, b: Seq<char>) -> nat;

/// Relies on `strsim::levenshtein`: the minimum number of single-character
/// insertions, deletions and substitutions that turn one string into the
/// other. It is zero for equal strings and never exceeds the longer length.
#[verifier::external_body]
fn levenshtein_distance(a: &str, b: &str) -> (r: usize)
    ensures
        r as nat == edit_distance(a@, b@),
        a@ == b@ ==> r == 0,
        r <= a@.len() || r <= b@.len(),
{
    strsim::levenshtein(a, b)
}

/// Normalized similarity of two strings in thousandths: `1000` minus the
/// edit distance's share of the longer length. Two empty strings count as
/// identical.
pub open spec fn similarity(a: Seq<char>, b: Seq<char>) -> int {
    let m = if a.len() >= b.len() {
        a.len() as int
    } else {
        b.len() as int
    };
    if m == 0 {
        1000
    } else if edit_distance(a, b) > m {
        0
    } else {
        1000 * (m - edit_distance(a, b)) / m
    }
}

/// Computes the normalized similarity of two strings, in thousandths.
pub fn similarity_permille(a: &str, b: &str) -> (r: u32)
    ensures
        r == similarity(a@, b@),
        r <= 1000,
{
    let la = a.unicode_len();
    let lb = b.unicode_len();
    let m = if la >= lb {
        la
    } else {
        lb
    };
    if m == 0 {
        return 1000;
    }
    let d = levenshtein_distance(a, b);
    proof {
        assert(d <= m);
    }
    let num: u128 = 1000u128 * ((m - d) as u128);
    let q: u128 = num / (m as u128);
    proof {
        assert(q as int == 1000 * (m as int - d as int) / (m as int));
        assert(q <= 1000) by (nonlinear_arith)
            requires
                q as int == 1000 * (m as int - d as int) / (m as int),
                d <= m,
                0 < m,
        {
        }
    }
    q as u32
}

/// Whether scan order visits `(i2, j2)` after `(i, j)`: rows first, then
/// columns.
pub open spec fn pair_after(i: int, j: int, i2: int, j2: int) -> bool {
    i2 > i || (i2 == i && j2 > j)
}

/// `(i, j)` is the pair the matcher selects on these token windows: its
/// similarity clears `MATCH_HIGH`, no pair scores higher, and every pair
/// visited later in scan order scores strictly lower (so later pairs win
/// ties).
pub open spec fn is_best_pair(lwin: Seq<Seq<char>>, rwin: Seq<Seq<char>>, i: int, j: int) -> bool {
    &&& 0 <= i < lwin.len()
    &&& 0 <= j < rwin.len()
    &&& similarity(lwin[i], rwin[j]) >= MATCH_HIGH
    &&& forall|i2: int, j2: int|
        0 <= i2 < lwin.len() && 0 <= j2 < rwin.len() ==> similarity(lwin[i2], rwin[j2])
            <= similarity(lwin[i], rwin[j])
    &&& forall|i2: int, j2: int|
        0 <= i2 < lwin.len() && 0 <= j2 < rwin.len() && pair_after(i, j, i2, j2)
            ==> similarity(lwin[i2], rwin[j2]) < similarity(lwin[i], rwin[j])
}

/// At most one pair can be the matcher's selection.
pub proof fn lemma_best_pair_unique(
    lwin: Seq<Seq<char>>,
    rwin: Seq<Seq<char>>,
    i: int,
    j: int,
    i2: int,
    j2: int,
)
    requires
        is_best_pair(lwin, rwin, i, j),
        is_best_pair(lwin, rwin, i2, j2),
    ensures
        i == i2 && j == j2,
{
    if i != i2 || j != j2 {
        if pair_after(i, j, i2, j2) {
            assert(similarity(lwin[i2], rwin[j2]) < similarity(lwin[i], rwin[j]));
            assert(similarity(lwin[i], rwin[j]) <= similarity(lwin[i2], rwin[j2]));
        } else {
            assert(pair_after(i2, j2, i, j));
            assert(similarity(lwin[i], rwin[j]) < similarity(lwin[i2], rwin[j2]));
            assert(similarity(lwin[i2], rwin[j2]) <= similarity(lwin[i], rwin[j]));
        }
    }
}

/// The matcher's selection on these token windows, if any pair clears
/// `MATCH_HIGH`.
pub open spec fn best_match(lwin: Seq<Seq<char>>, rwin: Seq<Seq<char>>) -> Option<(int, int)> {
    if exists|i: int, j: int| is_best_pair(lwin, rwin, i, j) {
        Some(choose|p: (int, int)| is_best_pair(lwin, rwin, p.0, p.1))
    } else {
        None
    }
}

/// Scans every token pair of the two windows and returns the highest-scoring
/// pair at or above `MATCH_HIGH`, later pairs winning ties, or `None` when no
/// pair reaches the floor.
pub fn find_closest_match(buf1: &[String], buf2: &[String]) -> (r: Option<(usize, usize)>)
    ensures
        match r {
            None => best_match(buf1.deep_view(), buf2.deep_view()) is None && (forall|
                i: int,
                j: int,
            |
                0 <= i < buf1.deep_view().len() && 0 <= j < buf2.deep_view().len()
                    ==> similarity(buf1.deep_view()[i], buf2.deep_view()[j]) < MATCH_HIGH),
            Some(p) => p.0 < buf1.deep_view().len() && p.1 < buf2.deep_view().len()
                && is_best_pair(buf1.deep_view(), buf2.deep_view(), p.0 as int, p.1 as int)
                && best_match(buf1.deep_view(), buf2.deep_view()) == Some(
                (p.0 as int, p.1 as int),
            ),
        },
{
    let ghost lwin = buf1.deep_view();
    let ghost rwin = buf2.deep_view();
    let n1 = buf1.len();
    let n2 = buf2.len();
    let mut best: Option<(usize, usize)> = None;
    let mut best_score: u32 = 0;
    let mut idx: usize = 0;
    while idx < n1
        invariant
            idx <= n1,
            n1 == lwin.len(),
            n2 == rwin.len(),
            lwin == buf1.deep_view(),
            rwin == buf2.deep_view(),
            match best {
                None => best_score == 0 && (forall|i: int, j: int|
                    0 <= i < idx && 0 <= j < n2 ==> similarity(lwin[i], rwin[j]) < MATCH_HIGH),
                Some(p) => {
                    &&& p.0 < idx && p.1 < n2
                    &&& best_score == similarity(lwin[p.0 as int], rwin[p.1 as int])
                    &&& best_score >= MATCH_HIGH
                    &&& forall|i: int, j: int|
                        0 <= i < idx && 0 <= j < n2 ==> similarity(lwin[i], rwin[j]) <= best_score
                    &&& forall|i: int, j: int|
                        0 <= i < idx && 0 <= j < n2 && pair_after(p.0 as int, p.1 as int, i, j)
                            ==> similarity(lwin[i], rwin[j]) < best_score
                },
            },
        decreases n1 - idx,
    {
        let l_token: &String = slice_index_get(buf1, idx);
        let mut jdx: usize = 0;
        while jdx < n2
            invariant
                idx < n1,
                jdx <= n2,
                n1 == lwin.len(),
                n2 == rwin.len(),
                lwin == buf1.deep_view(),
                rwin == buf2.deep_view(),
                l_token@ == lwin[idx as int],
                match best {
                    None => best_score == 0 && (forall|i: int, j: int|
                        0 <= i < lwin.len() && 0 <= j < n2 && (i < idx || (i == idx && j < jdx))
                            ==> similarity(lwin[i], rwin[j]) < MATCH_HIGH),
                    Some(p) => {
                        &&& (p.0 < idx || (p.0 == idx && p.1 < jdx)) && p.1 < n2
                        &&& best_score == similarity(lwin[p.0 as int], rwin[p.1 as int])
                        &&& best_score >= MATCH_HIGH
                        &&& forall|i: int, j: int|
                            0 <= i < lwin.len() && 0 <= j < n2 && (i < idx || (i == idx && j
                                < jdx)) ==> similarity(lwin[i], rwin[j]) <= best_score
                        &&& forall|i: int, j: int|
                            0 <= i < lwin.len() && 0 <= j < n2 && (i < idx || (i == idx && j
                                < jdx)) && pair_after(p.0 as int, p.1 as int, i, j)
                                ==> similarity(lwin[i], rwin[j]) < best_score
                    },
                },
            decreases n2 - jdx,
        {
            let r_token: &String = slice_index_get(buf2, jdx);
            let score = similarity_permille(l_token.as_str(), r_token.as_str());
            if score >= MATCH_HIGH && score >= best_score {
                best = Some((idx, jdx));
                best_score = score;
            }
            jdx = jdx + 1;
        }
        idx = idx + 1;
    }
    proof {
        match best {
            None => {},
            Some(p) => {
                assert(is_best_pair(lwin, rwin, p.0 as int, p.1 as int));
                let q = choose|q: (int, int)| is_best_pair(lwin, rwin, q.0, q.1);
                lemma_best_pair_unique(lwin, rwin, p.0 as int, p.1 as int, q.0, q.1);
            },
        }
    }
    best
}

/// How many consecutive token pairs from `(i, j)` onward score at least
/// `MATCH_MED`.
pub open spec fn stride_len(lbuf: Seq<Seq<char>>, rbuf: Seq<Seq<char>>, i: int, j: int) -> int
    decreases lbuf.len() - i,
{
    if 0 <= i < lbuf.len() && 0 <= j < rbuf.len() && similarity(lbuf[i], rbuf[j]) >= MATCH_MED {
        1 + stride_len(lbuf, rbuf, i + 1, j + 1)
    } else {
        0
    }
}

/// Extends a matched pair forward while consecutive token pairs keep scoring
/// at least `MATCH_MED`; returns the positions just past the stride.
pub fn run_stride(buf1: &[String], buf1_start: usize, buf2: &[String], buf2_start: usize) -> (r: (
    usize,
    usize,
))
    ensures
        r.0 == buf1_start + stride_len(
            buf1.deep_view(),
            buf2.deep_view(),
            buf1_start as int,
            buf2_start as int,
        ),
        r.1 - buf2_start == r.0 - buf1_start,
        r.0 >= buf1_start && r.1 >= buf2_start,
        r.0 <= buf1.deep_view().len() || r.0 == buf1_start,
        r.1 <= buf2.deep_view().len() || r.1 == buf2_start,
{
    let ghost lbuf = buf1.deep_view();
    let ghost rbuf = buf2.deep_view();
    let n1 = buf1.len();
    let n2 = buf2.len();
    let mut l_end = buf1_start;
    let mut r_end = buf2_start;
    loop
        invariant
            n1 == lbuf.len(),
            n2 == rbuf.len(),
            lbuf == buf1.deep_view(),
            rbuf == buf2.deep_view(),
            l_end >= buf1_start,
            r_end - buf2_start == l_end - buf1_start,
            stride_len(lbuf, rbuf, buf1_start as int, buf2_start as int) == (l_end - buf1_start)
                + stride_len(lbuf, rbuf, l_end as int, r_end as int),
            l_end <= n1 || l_end == buf1_start,
            r_end <= n2 || r_end == buf2_start,
        decreases n1 - l_end,
    {
        if l_end >= n1 || r_end >= n2 {
            proof {
                assert(stride_len(lbuf, rbuf, l_end as int, r_end as int) == 0);
            }
            return (l_end, r_end);
        }
        let l_token: &String = slice_index_get(buf1, l_end);
        let r_token: &String = slice_index_get(buf2, r_end);
        let score = similarity_permille(l_token.as_str(), r_token.as_str());
        if score < MATCH_MED {
            proof {
                assert(stride_len(lbuf, rbuf, l_end as int, r_end as int) == 0);
            }
            return (l_end, r_end);
        }
        proof {
            assert(stride_len(lbuf, rbuf, l_end as int, r_end as int) == 1 + stride_len(
                lbuf,
                rbuf,
                l_end + 1,
                r_end + 1,
            ));
        }
        l_end = l_end + 1;
        r_end = r_end + 1;
    }
}

/// The token window of the earlier text's tail: its last `N_TOKENS` tokens,
/// preceded by the rest joined into a single piece. Short texts stay as they
/// are.
pub open spec fn left_window(toks: Seq<Seq<char>>) -> Seq<Seq<char>> {
    if toks.len() <= N_TOKENS as int + 1 {
        toks
    } else {
        seq![join_spaced(toks.take(toks.len() - N_TOKENS as int))] + toks.skip(
            toks.len() - N_TOKENS as int,
        )
    }
}

/// The token window of the later text's head: its first `N_TOKENS` tokens,
/// followed by the rest joined into a single piece. Short texts stay as they
/// are.
pub open spec fn right_window(toks: Seq<Seq<char>>) -> Seq<Seq<char>> {
    if toks.len() <= N_TOKENS as int + 1 {
        toks
    } else {
        toks.take(N_TOKENS as int) + seq![join_spaced(toks.skip(N_TOKENS as int))]
    }
}

/// Collapsing a text's head into one window piece does not change the joined
/// text.
pub proof fn lemma_left_window_join(toks: Seq<Seq<char>>)
    requires
        toks.len() > 0,
    ensures
        join_spaced(left_window(toks)) == join_spaced(toks),
        left_window(toks).len() > 0,
{
    if toks.len() <= N_TOKENS as int + 1 {
    } else {
        let cut = toks.len() - N_TOKENS as int;
        let head = toks.take(cut);
        let tail = toks.skip(cut);
        lemma_join_spaced_concat(seq![join_spaced(head)], tail);
        lemma_join_spaced_concat(head, tail);
        assert(head + tail =~= toks);
        assert(join_spaced(seq![join_spaced(head)]) == join_spaced(head));
    }
}

/// Collapsing a text's tail into one window piece does not change the joined
/// text.
pub proof fn lemma_right_window_join(toks: Seq<Seq<char>>)
    requires
        toks.len() > 0,
    ensures
        join_spaced(right_window(toks)) == join_spaced(toks),
        right_window(toks).len() > 0,
{
    if toks.len() <= N_TOKENS as int + 1 {
    } else {
        let head = toks.take(N_TOKENS as int);
        let tail = toks.skip(N_TOKENS as int);
        lemma_join_spaced_concat(head, seq![join_spaced(tail)]);
        lemma_join_spaced_concat(head, tail);
        assert(head + tail =~= toks);
        assert(join_spaced(seq![join_spaced(tail)]) == join_spaced(tail));
    }
}

/// Copies the pieces `from..to` of `tokens` into a fresh vector.
fn clone_pieces(tokens: &Vec<String>, from: usize, to: usize) -> (r: Vec<String>)
    requires
        from <= to <= tokens@.len(),
    ensures
        r.deep_view() == tokens.deep_view().subrange(from as int, to as int),
{
    let ghost tdv = tokens.deep_view();
    proof {
        assert(tdv.len() == tokens@.len());
        assert(forall|i: int| 0 <= i < tdv.len() ==> tdv[i] == tokens@[i]@);
    }
    let mut r: Vec<String> = Vec::new();
    let mut k = from;
    while k < to
        invariant
            from <= k <= to <= tokens@.len(),
            tdv == tokens.deep_view(),
            tdv.len() == tokens@.len(),
            forall|i: int| 0 <= i < tdv.len() ==> tdv[i] == tokens@[i]@,
            r@.len() == k - from,
            forall|i: int| 0 <= i < r@.len() ==> r@[i]@ == tdv[from + i],
        decreases to - k,
    {
        let piece: &String = &tokens[k];
        r.push(piece.clone());
        k = k + 1;
    }
    proof {
        assert forall|i: int| 0 <= i < r@.len() implies r.deep_view()[i] == tdv.subrange(
            from as int,
            to as int,
        )[i] by {
            assert(r.deep_view()[i] == r@[i]@);
            assert(r@[i]@ == tdv[from + i]);
        }
        assert(r.deep_view().len() == r@.len());
        assert(r.deep_view() =~= tdv.subrange(from as int, to as int));
    }
    r
}

/// Splits the two texts into their boundary token windows: the last
/// `N_TOKENS` tokens of the earlier text (rest collapsed into a leading
/// piece) and the first `N_TOKENS` tokens of the later text (rest collapsed
/// into a trailing piece).
pub fn split_text(str1: &str, str2: &str) -> (r: (Vec<String>, Vec<String>))
    ensures
        r.0.deep_view() == left_window(split_spaces(str1@)),
        r.1.deep_view() == right_window(split_spaces(str2@)),
        r.0@.len() >= 1,
        r.1@.len() >= 1,
{
    let ltoks = split_all(str1);
    let rtoks = split_all(str2);
    let lbuf = if ltoks.len() > N_TOKENS + 1 {
        let cut = ltoks.len() - N_TOKENS;
        let head = clone_pieces(&ltoks, 0, cut);
        let tail = clone_pieces(&ltoks, cut, ltoks.len());
        proof {
            assert(head.deep_view() =~= split_spaces(str1@).take(cut as int));
        }
        let mut out: Vec<String> = Vec::new();
        out.push(join_all(&head));
        let mut rest = tail;
        out.append(&mut rest);
        proof {
            assert(out.deep_view() =~= left_window(split_spaces(str1@)));
        }
        out
    } else {
        ltoks
    };
    let rbuf = if rtoks.len() > N_TOKENS + 1 {
        let head = clone_pieces(&rtoks, 0, N_TOKENS);
        let tail = clone_pieces(&rtoks, N_TOKENS, rtoks.len());
        proof {
            assert(tail.deep_view() =~= split_spaces(str2@).skip(N_TOKENS as int));
        }
        let mut out = head;
        out.push(join_all(&tail));
        proof {
            assert(out.deep_view() =~= right_window(split_spaces(str2@)));
        }
        out
    } else {
        rtoks
    };
    (lbuf, rbuf)
}

/// What the fuzzy deduplication of two texts yields. Empty texts pass
/// through unchanged. Otherwise the best window match is extended to a
/// stride; a single-token match away from the boundary is rejected as a
/// false positive; an accepted match keeps the overlap on the left side and
/// drops it from the right.
pub open spec fn dedup_spec(l: Seq<char>, r: Seq<char>) -> Option<(Seq<char>, Seq<char>)> {
    if l.len() == 0 || r.len() == 0 {
        Some((l, r))
    } else {
        let lb = left_window(split_spaces(l));
        let rb = right_window(split_spaces(r));
        let lstart: int = if lb.len() == N_TOKENS as int + 1 {
            1
        } else {
            0
        };
        let rend: int = if rb.len() <= N_TOKENS as int {
            rb.len() as int
        } else {
            N_TOKENS as int
        };
        match best_match(lb.skip(lstart), rb.take(rend)) {
            None => None,
            Some(p) => {
                let lm = p.0 + lstart;
                let stride = stride_len(lb, rb, lm, p.1);
                let lend = lm + stride;
                let rends = p.1 + stride;
                if stride < 2 && lend < (if lb.len() >= 2 {
                    lb.len() - 2
                } else {
                    0
                }) {
                    None
                } else {
                    Some((join_spaced(lb.take(lend)), join_spaced(rb.skip(rends))))
                }
            },
        }
    }
}

/// No similarity score exceeds a perfect match.
pub proof fn lemma_similarity_bounded(a: Seq<char>, b: Seq<char>)
    ensures
        similarity(a, b) <= 1000,
{
    let m = if a.len() >= b.len() {
        a.len() as int
    } else {
        b.len() as int
    };
    if m == 0 {
    } else if edit_distance(a, b) > m {
    } else {
        assert(1000 * (m - edit_distance(a, b)) / m <= 1000) by (nonlinear_arith)
            requires
                0 <= edit_distance(a, b) <= m,
                0 < m,
        {
        }
    }
}

/// The later text's boundary window begins with a perfect copy of the last
/// `k` tokens of the earlier text's window, and no other pair of window
/// tokens scores a perfect match.
pub open spec fn exact_boundary_overlap(l: Seq<char>, r: Seq<char>, k: int) -> bool {
    let lb = left_window(split_spaces(l));
    let rb = right_window(split_spaces(r));
    let lstart: int = if lb.len() == N_TOKENS as int + 1 {
        1
    } else {
        0
    };
    let rend: int = if rb.len() <= N_TOKENS as int {
        rb.len() as int
    } else {
        N_TOKENS as int
    };
    let off = lb.len() - k;
    &&& l.len() > 0
    &&& r.len() > 0
    &&& 2 <= k <= rend
    &&& lstart <= off
    &&& forall|j: int| 0 <= j < k ==> similarity(lb[off + j], rb[j]) == 1000
    &&& forall|i: int, j: int|
        lstart <= i < lb.len() && 0 <= j < rend && similarity(lb[i], rb[j]) == 1000 ==> i - j
            == off
}

/// When the later text begins with an exact suffix of the earlier text at
/// least two tokens long — and the boundary windows hold no perfect match
/// besides that overlap — the primitive accepts: the earlier text survives
/// whole, and exactly the `k` duplicated tokens leave the later one, so the
/// two halves hold each overlapping token once.
pub proof fn lemma_dedup_exact_overlap(l: Seq<char>, r: Seq<char>, k: int)
    ensures
        exact_boundary_overlap(l, r, k) ==> dedup_spec(l, r) == Some(
            (l, join_spaced(right_window(split_spaces(r)).skip(k))),
        ),
{
    if exact_boundary_overlap(l, r, k) {
        let toks_l = split_spaces(l);
        let toks_r = split_spaces(r);
        let lb = left_window(toks_l);
        let rb = right_window(toks_r);
        let lstart: int = if lb.len() == N_TOKENS as int + 1 {
            1
        } else {
            0
        };
        let rend: int = if rb.len() <= N_TOKENS as int {
            rb.len() as int
        } else {
            N_TOKENS as int
        };
        let off = lb.len() - k;
        let lwin = lb.skip(lstart);
        let rwin = rb.take(rend);
        let ci = lb.len() - 1 - lstart;
        let cj = k - 1;
        lemma_split_spaces_len(r);
        assert(rb.len() >= 1) by {
            lemma_right_window_join(toks_r);
        }
        // The pair of the overlap's last token is the matcher's selection.
        assert(lwin[ci] == lb[lb.len() - 1]);
        assert(rwin[cj] == rb[k - 1]);
        assert(similarity(lb[off + (k - 1)], rb[k - 1]) == 1000);
        assert(off + (k - 1) == lb.len() - 1);
        assert forall|i2: int, j2: int|
            0 <= i2 < lwin.len() && 0 <= j2 < rwin.len() implies similarity(lwin[i2], rwin[j2])
            <= similarity(lwin[ci], rwin[cj]) by {
            lemma_similarity_bounded(lwin[i2], rwin[j2]);
        }
        assert forall|i2: int, j2: int|
            0 <= i2 < lwin.len() && 0 <= j2 < rwin.len() && pair_after(ci, cj, i2, j2) implies
            similarity(lwin[i2], rwin[j2]) < similarity(lwin[ci], rwin[cj]) by {
            lemma_similarity_bounded(lwin[i2], rwin[j2]);
            assert(i2 == ci && j2 > cj);
            if similarity(lwin[i2], rwin[j2]) == 1000 {
                assert(lwin[i2] == lb[i2 + lstart]);
                assert(rwin[j2] == rb[j2]);
                assert((i2 + lstart) - j2 == off);
            }
        }
        assert(is_best_pair(lwin, rwin, ci, cj));
        assert(exists|p: (int, int)| is_best_pair(lwin, rwin, p.0, p.1)) by {
            let w = (ci, cj);
            assert(is_best_pair(lwin, rwin, w.0, w.1));
        }
        let q = choose|q: (int, int)| is_best_pair(lwin, rwin, q.0, q.1);
        lemma_best_pair_unique(lwin, rwin, ci, cj, q.0, q.1);
        assert(best_match(lwin, rwin) == Some((ci, cj)));
        // The stride runs one step and hits the end of the earlier window.
        let lm = ci + lstart;
        assert(lm == lb.len() - 1);
        assert(stride_len(lb, rb, lb.len() as int, k) == 0);
        assert(stride_len(lb, rb, lm, cj) == 1);
        // The single-token stride sits at the very end of the earlier text,
        // so the false-match filter does not reject it.
        assert(lb.take(lb.len() as int) =~= lb);
        lemma_left_window_join(toks_l);
        lemma_join_split_identity(l);
        assert(join_spaced(lb.take(lm + stride_len(lb, rb, lm, cj))) == l);
        assert(dedup_spec(l, r) == Some((l, join_spaced(rb.skip(cj + stride_len(lb, rb, lm, cj))))));
        assert(cj + stride_len(lb, rb, lm, cj) == k);
    }
}

/// Removes a duplicated overlap where the tail of `str1` and the head of
/// `str2` cover the same speech. On success the overlap stays in the first
/// returned text and is gone from the second; `None` means no trustworthy
/// overlap was found and the caller should concatenate unchanged.
///
/// Empty inputs pass through unchanged, and texts whose boundary windows
/// share no token pair scoring at least `MATCH_HIGH` are always rejected.
pub fn deduplicate_strings(str1: &str, str2: &str) -> (r: Option<(String, String)>)
    ensures
        match r {
            None => dedup_spec(str1@, str2@) is None,
            Some(p) => dedup_spec(str1@, str2@) == Some((p.0@, p.1@)),
        },
        (str1@.len() == 0 || str2@.len() == 0) ==> (match r {
            Some(p) => p.0@ == str1@ && p.1@ == str2@,
            None => false,
        }),
        ({
            let lb = left_window(split_spaces(str1@));
            let rb = right_window(split_spaces(str2@));
            let lstart: int = if lb.len() == N_TOKENS as int + 1 {
                1
            } else {
                0
            };
            let rend: int = if rb.len() <= N_TOKENS as int {
                rb.len() as int
            } else {
                N_TOKENS as int
            };
            (str1@.len() > 0 && str2@.len() > 0 && (forall|i: int, j: int|
                lstart <= i < lb.len() && 0 <= j < rend ==> similarity(lb[i], rb[j])
                    < MATCH_HIGH)) ==> r is None
        }),
{
    if str1.unicode_len() == 0 || str2.unicode_len() == 0 {
        return Some((str1.to_owned(), str2.to_owned()));
    }
    let ghost lb = left_window(split_spaces(str1@));
    let ghost rb = right_window(split_spaces(str2@));
    let (lbuf, rbuf) = split_text(str1, str2);
    let lstart: usize = if lbuf.len() == N_TOKENS + 1 {
        1
    } else {
        0
    };
    let rend: usize = if rbuf.len() <= N_TOKENS {
        rbuf.len()
    } else {
        N_TOKENS
    };
    let lwin = slice_subrange(lbuf.as_slice(), lstart, lbuf.len());
    let rwin = slice_subrange(rbuf.as_slice(), 0, rend);
    proof {
        assert(lwin.deep_view() =~= lb.skip(lstart as int));
        assert(rwin.deep_view() =~= rb.take(rend as int));
    }
    match find_closest_match(lwin, rwin) {
        None => None,
        Some((li, rj)) => {
            let lm = li + lstart;
            let (lend, rends) = run_stride(lbuf.as_slice(), lm, rbuf.as_slice(), rj);
            let stride = lend - lm;
            if stride < 2 && lend + 2 < lbuf.len() {
                return None;
            }
            let left_parts = clone_pieces(&lbuf, 0, lend);
            let right_parts = clone_pieces(&rbuf, rends, rbuf.len());
            proof {
                assert(left_parts.deep_view() =~= lb.take(lend as int));
                assert(right_parts.deep_view() =~= rb.skip(rends as int));
            }
            let left = join_all(&left_parts);
            let right = join_all(&right_parts);
            Some((left, right))
        },
    }
}

/// What blending a new boundary segment into the last working-set segment
/// yields as the new text of the latter. An empty right side leaves the left
/// alone; an empty left side takes the right text whole. Otherwise the match
/// runs as in [`dedup_spec`] with left priority: the left text keeps
/// everything through the matched stride and, when the right side had more
/// than `N_TOKENS` tokens, absorbs the one boundary token just past the
/// stride.
pub open spec fn blend_spec(l: Seq<char>, r: Seq<char>) -> Seq<char> {
    if r.len() == 0 {
        l
    } else if l.len() == 0 {
        r
    } else {
        let lb = left_window(split_spaces(l));
        let rb = right_window(split_spaces(r));
        let lstart: int = if lb.len() == N_TOKENS as int + 1 {
            1
        } else {
            0
        };
        let rend: int = if rb.len() <= N_TOKENS as int {
            rb.len() as int
        } else {
            N_TOKENS as int
        };
        match best_match(lb.skip(lstart), rb.take(rend)) {
            None => l,
            Some(p) => {
                let lm = p.0 + lstart;
                let stride = stride_len(lb, rb, lm, p.1);
                let lend = lm + stride;
                let rends = p.1 + stride;
                if stride < 2 && lend < (if lb.len() >= 2 {
                    lb.len() - 2
                } else {
                    0
                }) {
                    l
                } else if rb.len() == N_TOKENS as int + 1 && rends < N_TOKENS as int {
                    join_spaced(lb.take(lend).push(rb[rends]))
                } else {
                    join_spaced(lb.take(lend))
                }
            },
        }
    }
}

/// Blends a new boundary segment into the last segment of the working set,
/// replacing the latter's text as [`blend_spec`] says. The right segment is
/// never changed; an empty right text is a no-op and an empty left text
/// takes the right text whole.
pub fn blend_segments(l_segment: &mut RibbleWhisperSegment, r_segment: &RibbleWhisperSegment)
    ensures
        final(l_segment).spec_text() == blend_spec(
            old(l_segment).spec_text(),
            r_segment.spec_text(),
        ),
        final(l_segment).spec_start() == old(l_segment).spec_start(),
        final(l_segment).spec_end() == old(l_segment).spec_end(),
        r_segment.spec_text().len() == 0 ==> final(l_segment).spec_text() == old(l_segment).spec_text(),
        (old(l_segment).spec_text().len() == 0 && r_segment.spec_text().len() > 0)
            ==> final(l_segment).spec_text() == r_segment.spec_text(),
{
    if r_segment.text().unicode_len() == 0 {
        return ;
    }
    if l_segment.text().unicode_len() == 0 {
        l_segment.replace_text(r_segment.text().to_owned());
        return ;
    }
    let ghost lb = left_window(split_spaces(l_segment.spec_text()));
    let ghost rb = right_window(split_spaces(r_segment.spec_text()));
    let (lbuf, rbuf) = split_text(l_segment.text(), r_segment.text());
    let lstart: usize = if lbuf.len() == N_TOKENS + 1 {
        1
    } else {
        0
    };
    let rend: usize = if rbuf.len() <= N_TOKENS {
        rbuf.len()
    } else {
        N_TOKENS
    };
    let lwin = slice_subrange(lbuf.as_slice(), lstart, lbuf.len());
    let rwin = slice_subrange(rbuf.as_slice(), 0, rend);
    proof {
        assert(lwin.deep_view() =~= lb.skip(lstart as int));
        assert(rwin.deep_view() =~= rb.take(rend as int));
    }
    match find_closest_match(lwin, rwin) {
        None => {},
        Some((li, rj)) => {
            let lm = li + lstart;
            let (lend, rends) = run_stride(lbuf.as_slice(), lm, rbuf.as_slice(), rj);
            let stride = lend - lm;
            if stride < 2 && lend + 2 < lbuf.len() {
                return ;
            }
            let mut left_parts = clone_pieces(&lbuf, 0, lend);
            if rbuf.len() == N_TOKENS + 1 && rends < N_TOKENS {
                let boundary: &String = &rbuf[rends];
                left_parts.push(boundary.clone());
                proof {
                    assert(left_parts.deep_view() =~= lb.take(lend as int).push(
                        rb[rends as int],
                    ));
                }
            } else {
                proof {
                    assert(left_parts.deep_view() =~= lb.take(lend as int));
                }
            }
            let blended = join_all(&left_parts);
            l_segment.replace_text(blended);
        },
    }
}

/// The texts of a run of segments, in order.
pub open spec fn segment_texts(segs: Seq<RibbleWhisperSegment>) -> Seq<Seq<char>> {
    segs.map_values(|s: RibbleWhisperSegment| s.spec_text())
}

/// What confirming the whole working set into the prefix yields. A blank
/// prefix becomes the joined segment texts. Otherwise the first segment is
/// deduplicated against the prefix tail and everything is concatenated with
/// single spaces; the result is always trimmed.
pub open spec fn confirm_spec(out: Seq<char>, segs: Seq<Seq<char>>) -> Seq<char> {
    if trim_spaces(out).len() == 0 {
        trim_spaces(join_spaced(segs))
    } else if segs.len() == 0 {
        out
    } else {
        match dedup_spec(out, segs[0]) {
            None => trim_spaces(
                out + seq![' '] + segs[0] + seq![' '] + join_spaced(segs.skip(1)),
            ),
            Some(p) => trim_spaces(
                p.0 + seq![' '] + p.1 + seq![' '] + join_spaced(segs.skip(1)),
            ),
        }
    }
}

/// A trimmed prefix stays trimmed through a confirmation.
pub proof fn lemma_confirm_trimmed(out: Seq<char>, segs: Seq<Seq<char>>)
    requires
        trim_spaces(out) == out,
    ensures
        trim_spaces(confirm_spec(out, segs)) == confirm_spec(out, segs),
{
    lemma_trim_spaces_clean(join_spaced(segs));
    if trim_spaces(out).len() == 0 {
    } else if segs.len() == 0 {
    } else {
        match dedup_spec(out, segs[0]) {
            None => {
                lemma_trim_spaces_clean(
                    out + seq![' '] + segs[0] + seq![' '] + join_spaced(segs.skip(1)),
                );
            },
            Some(p) => {
                lemma_trim_spaces_clean(
                    p.0 + seq![' '] + p.1 + seq![' '] + join_spaced(segs.skip(1)),
                );
            },
        }
    }
}

/// Empties the working set, returning the segment texts in order.
fn drain_texts(working_set: &mut Vec<RibbleWhisperSegment>) -> (texts: Vec<String>)
    ensures
        texts.deep_view() == segment_texts(old(working_set)@),
        final(working_set)@.len() == 0,
{
    let ghost all = segment_texts(old(working_set)@);
    let mut texts: Vec<String> = Vec::new();
    while working_set.len() > 0
        invariant
            all == segment_texts(old(working_set)@),
            all.len() == old(working_set)@.len(),
            texts@.len() + working_set@.len() == all.len(),
            forall|i: int| 0 <= i < texts@.len() ==> texts@[i]@ == all[i],
            forall|i: int|
                0 <= i < working_set@.len() ==> working_set@[i].spec_text() == all[
                    texts@.len() + i
                ],
        decreases working_set@.len(),
    {
        let seg = working_set.remove(0);
        texts.push(seg.into_text());
    }
    proof {
        assert forall|i: int| 0 <= i < texts.deep_view().len() implies texts.deep_view()[i]
            == all[i] by {
            assert(texts.deep_view()[i] == texts@[i]@);
        }
        assert(texts.deep_view() =~= all);
    }
    texts
}

/// Drains the working set through the deduplication primitive into the
/// confirmed prefix and returns the extended prefix, as [`confirm_spec`]
/// says.
///
/// When the incoming prefix is trimmed and nonempty, and the primitive
/// either rejects or keeps the prefix whole, the returned prefix never gets
/// shorter and keeps the old prefix as its head.
pub fn confirm_transcription(
    output_string: String,
    working_set: &mut Vec<RibbleWhisperSegment>,
) -> (r: String)
    ensures
        r@ == confirm_spec(output_string@, segment_texts(old(working_set)@)),
        final(working_set)@.len() == 0,
        ({
            let segs = segment_texts(old(working_set)@);
            (trim_spaces(output_string@) == output_string@ && output_string@.len() > 0 && (
            segs.len() == 0 || (match dedup_spec(output_string@, segs[0]) {
                None => true,
                Some(p) => p.0 == output_string@,
            }))) ==> r@.len() >= output_string@.len() && r@.take(output_string@.len() as int)
                == output_string@
        }),
{
    let ghost segs = segment_texts(old(working_set)@);
    let ghost out0 = output_string@;
    proof {
        lemma_trim_spaces_clean(out0);
    }
    let trimmed = trim(output_string.as_str());
    if trimmed.unicode_len() == 0 {
        let texts = drain_texts(working_set);
        let joined = join_all(&texts);
        let r = trim(joined.as_str()).to_owned();
        proof {
            if trim_spaces(out0) == out0 && out0.len() > 0 {
                assert(false);
            }
        }
        return r;
    }
    if working_set.len() == 0 {
        proof {
            assert(out0.take(out0.len() as int) =~= out0);
        }
        return output_string;
    }
    let first = working_set.remove(0);
    proof {
        assert(working_set@ =~= old(working_set)@.skip(1));
        assert(segment_texts(working_set@) =~= segs.skip(1));
        assert(first.spec_text() == segs[0]);
    }
    let rest = drain_texts(working_set);
    let rest_joined = join_all(&rest);
    match deduplicate_strings(output_string.as_str(), first.text()) {
        None => {
            let mut out = output_string;
            push_char(&mut out, ' ');
            out.append(first.text());
            push_char(&mut out, ' ');
            out.append(rest_joined.as_str());
            let r = trim(out.as_str()).to_owned();
            proof {
                assert(out@ =~= out0 + seq![' '] + segs[0] + seq![' '] + join_spaced(
                    segs.skip(1),
                ));
                if trim_spaces(out0) == out0 && out0.len() > 0 {
                    lemma_trim_concat_keeps_prefix(
                        out0,
                        seq![' '] + segs[0] + seq![' '] + join_spaced(segs.skip(1)),
                    );
                    assert(out0 + (seq![' '] + segs[0] + seq![' '] + join_spaced(segs.skip(1)))
                        =~= out@);
                }
            }
            r
        },
        Some((a, b)) => {
            let ghost a0 = a@;
            let mut out = a;
            push_char(&mut out, ' ');
            out.append(b.as_str());
            push_char(&mut out, ' ');
            out.append(rest_joined.as_str());
            let r = trim(out.as_str()).to_owned();
            proof {
                let p = dedup_spec(out0, segs[0])->Some_0;
                assert(out@ =~= p.0 + seq![' '] + p.1 + seq![' '] + join_spaced(segs.skip(1)));
                if trim_spaces(out0) == out0 && out0.len() > 0 && p.0 == out0 {
                    lemma_trim_concat_keeps_prefix(
                        out0,
                        seq![' '] + p.1 + seq![' '] + join_spaced(segs.skip(1)),
                    );
                    assert(out0 + (seq![' '] + p.1 + seq![' '] + join_spaced(segs.skip(1)))
                        =~= out@);
                }
            }
            r
        },
    }
}

} // verus!
