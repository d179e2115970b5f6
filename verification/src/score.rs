//! The comparison/weighting algorithm.
//!
//! Every variant scores the same way, driven by its board: at each position
//! a `Pass` abstains and moves nothing, a guess equal to the key earns the
//! position's weight, and any other guess loses it.

use vstd::prelude::*;

use crate::board::{board_total, square_count, weight, weight_sum, Variant};
use crate::square::Square;

verus! {

/// What one position contributes: nothing for an abstention, the weight `w`
/// for a guess that matches the key, and `-w` otherwise.
pub open spec fn square_points(g: Square, k: Square, w: int) -> int {
    if g == Square::Pass {
        0
    } else if g == k {
        w
    } else {
        -w
    }
}

/// The total contribution of positions `[lo, hi)` of a guess against a key
/// under variant `v`'s board.
pub open spec fn score_between(guess: Seq<Square>, key: Seq<Square>, v: Variant, lo: int, hi: int) -> int
    decreases hi - lo,
{
    if lo >= hi {
        0
    } else {
        score_between(guess, key, v, lo, hi - 1) + square_points(guess[hi - 1], key[hi - 1], weight(v, hi - 1))
    }
}

/// The number of positions one play scores: every square of the variant,
/// but never past the end of the key.
pub open spec fn scored_positions(v: Variant, key_len: int) -> int {
    if key_len < square_count(v) {
        key_len
    } else {
        square_count(v)
    }
}

/// The score one play of key `key` adds to a player guessing `guess` under
/// variant `v`.
pub open spec fn play_points(v: Variant, guess: Seq<Square>, key: Seq<Square>) -> int {
    score_between(guess, key, v, 0, scored_positions(v, key.len() as int))
}

/// Positions contribute independently: the total over `[lo, hi)` splits at
/// any midpoint, so the score is the sum over every position of that
/// position's own contribution.
pub proof fn lemma_score_decomposes(guess: Seq<Square>, key: Seq<Square>, v: Variant, lo: int, mid: int, hi: int)
    requires
        lo <= mid <= hi,
    ensures
        score_between(guess, key, v, lo, hi) == score_between(guess, key, v, lo, mid) + score_between(guess, key, v, mid, hi),
    decreases hi - mid,
{
    if mid < hi {
        lemma_score_decomposes(guess, key, v, lo, mid, hi - 1);
    }
}

/// A single position contributes exactly `0` on a `Pass`, `+weight` on a
/// match and `-weight` on a mismatch.
pub proof fn lemma_score_at(guess: Seq<Square>, key: Seq<Square>, v: Variant, i: int)
    ensures
        score_between(guess, key, v, i, i + 1) == (if guess[i] == Square::Pass {
            0int
        } else if guess[i] == key[i] {
            weight(v, i)
        } else {
            -weight(v, i)
        }),
{
    assert(score_between(guess, key, v, i, i) == 0);
}

/// A span's contribution never exceeds the sum of its weights in either
/// direction.
pub proof fn lemma_score_bounds(guess: Seq<Square>, key: Seq<Square>, v: Variant, lo: int, hi: int)
    requires
        0 <= lo <= hi,
    ensures
        -(weight_sum(v, hi) - weight_sum(v, lo)) <= score_between(guess, key, v, lo, hi) <= weight_sum(v, hi) - weight_sum(v, lo),
    decreases hi - lo,
{
    if lo < hi {
        lemma_score_bounds(guess, key, v, lo, hi - 1);
        crate::board::lemma_weight_bounds(v, hi - 1);
        assert(score_between(guess, key, v, lo, hi) == score_between(guess, key, v, lo, hi - 1)
            + square_points(guess[hi - 1], key[hi - 1], weight(v, hi - 1)));
        assert(weight_sum(v, hi) == weight_sum(v, hi - 1) + weight(v, hi - 1));
    }
}

/// A span of `n` positions weighs at most `100 * n`.
pub proof fn lemma_weight_sum_span_bound(v: Variant, lo: int, hi: int)
    requires
        0 <= lo <= hi,
    ensures
        0 <= weight_sum(v, hi) - weight_sum(v, lo) <= 100 * (hi - lo),
    decreases hi - lo,
{
    if lo < hi {
        lemma_weight_sum_span_bound(v, lo, hi - 1);
        crate::board::lemma_weight_bounds(v, hi - 1);
    }
}

/// Weight sums grow with the span.
pub proof fn lemma_weight_sum_monotone(v: Variant, lo: int, hi: int)
    requires
        0 <= lo <= hi,
    ensures
        weight_sum(v, lo) <= weight_sum(v, hi),
    decreases hi - lo,
{
    if lo < hi {
        lemma_weight_sum_monotone(v, lo, hi - 1);
        crate::board::lemma_weight_bounds(v, hi - 1);
    }
}

/// Weight sums of `[0, n)` never fall below zero.
pub proof fn lemma_weight_sum_nonneg(v: Variant, n: int)
    ensures
        n >= 0 ==> weight_sum(v, n) >= 0,
        n <= 0 ==> weight_sum(v, n) == 0,
    decreases n,
{
    if n > 0 {
        lemma_weight_sum_nonneg(v, n - 1);
        crate::board::lemma_weight_bounds(v, n - 1);
    }
}

/// A guess that answers every position of `[lo, hi)` exactly as the key does
/// (never abstaining) earns the span's full weight sum; one that contradicts
/// every position loses it.
pub proof fn lemma_score_extremes(guess: Seq<Square>, key: Seq<Square>, v: Variant, lo: int, hi: int)
    requires
        0 <= lo <= hi,
    ensures
        (forall|i: int| lo <= i < hi ==> guess[i] != Square::Pass && guess[i] == key[i])
            ==> score_between(guess, key, v, lo, hi) == weight_sum(v, hi) - weight_sum(v, lo),
        (forall|i: int| lo <= i < hi ==> guess[i] != Square::Pass && guess[i] != key[i])
            ==> score_between(guess, key, v, lo, hi) == -(weight_sum(v, hi) - weight_sum(v, lo)),
    decreases hi - lo,
{
    if lo < hi {
        lemma_score_extremes(guess, key, v, lo, hi - 1);
        assert(score_between(guess, key, v, lo, hi) == score_between(guess, key, v, lo, hi - 1)
            + square_points(guess[hi - 1], key[hi - 1], weight(v, hi - 1)));
        assert(weight_sum(v, hi) == weight_sum(v, hi - 1) + weight(v, hi - 1));
    }
}

/// A guess of all `Yes` against a key of all `Yes` over the variant's full
/// board earns the board's whole total (450 for Normal, 2990 for GreatWar),
/// and a guess of all `No` against that key loses it.
pub proof fn lemma_boundary_scores(guess: Seq<Square>, key: Seq<Square>, v: Variant)
    requires
        key.len() >= square_count(v),
        forall|i: int| 0 <= i < square_count(v) ==> key[i] == Square::Yes,
    ensures
        (forall|i: int| 0 <= i < square_count(v) ==> guess[i] == Square::Yes)
            ==> play_points(v, guess, key) == board_total(v),
        (forall|i: int| 0 <= i < square_count(v) ==> guess[i] == Square::No)
            ==> play_points(v, guess, key) == -board_total(v),
{
    lemma_score_extremes(guess, key, v, 0, square_count(v));
}

/// Scores the positions `[lo, hi)` of a guess against a key under `v`'s
/// board: the shared body of every scorer.
fn score_span(key: &[Square], guess: &[Square], v: Variant, lo: usize, hi: usize) -> (r: i32)
    requires
        lo <= hi,
        hi <= key@.len(),
        hi <= guess@.len(),
        hi <= square_count(v),
    ensures
        r == score_between(guess@, key@, v, lo as int, hi as int),
{
    let mut acc: i32 = 0;
    let mut i: usize = lo;
    while i < hi
        invariant
            lo <= i <= hi,
            hi <= key@.len(),
            hi <= guess@.len(),
            hi <= square_count(v),
            acc == score_between(guess@, key@, v, lo as int, i as int),
            -100 * (i - lo) <= acc <= 100 * (i - lo),
        decreases hi - i,
    {
        proof {
            crate::board::lemma_weight_bounds(v, i as int);
        }
        let g = guess[i];
        let k = key[i];
        if g != Square::Pass {
            let w = crate::board::weight_of(v, i);
            if g == k {
                acc = acc + w;
            } else {
                acc = acc - w;
            }
        }
        i += 1;
    }
    acc
}

/// The score one play of `key` adds to a sheet guessing `guess` under
/// variant `v`: every square of the variant is scored, but never a position
/// past the end of the key.
pub fn play_score(v: Variant, guess: &[Square], key: &[Square]) -> (r: i32)
    requires
        guess@.len() >= square_count(v),
    ensures
        r == play_points(v, guess@, key@),
{
    let count = crate::board::squares_of(v);
    let m = if key.len() < count {
        key.len()
    } else {
        count
    };
    score_span(key, guess, v, 0, m)
}

/// One play moves a score by at most the board's total, in either direction.
pub proof fn lemma_play_points_bounded(v: Variant, guess: Seq<Square>, key: Seq<Square>)
    ensures
        -board_total(v) <= play_points(v, guess, key) <= board_total(v),
{
    let m = scored_positions(v, key.len() as int);
    lemma_score_bounds(guess, key, v, 0, m);
    lemma_weight_sum_monotone(v, m, square_count(v));
    lemma_weight_sum_nonneg(v, m);
}

/// The full GreatWar score of a guess against a key: the eight grid rows
/// plus the bonus squares.
pub fn score(key: &[Square], guess: &[Square]) -> (r: i32)
    requires
        key@.len() >= 78,
        guess@.len() >= 78,
    ensures
        r == score_between(guess@, key@, Variant::GreatWar, 0, 78),
{
    let r1 = score_row_one(key, guess);
    let r2 = score_row_two(key, guess);
    let r3 = score_row_three(key, guess);
    let r4 = score_row_four(key, guess);
    let r5 = score_row_five(key, guess);
    let r6 = score_row_six(key, guess);
    let r7 = score_row_seven(key, guess);
    let r8 = score_row_eight(key, guess);
    let r9 = score_bonus(key, guess);
    proof {
        let g = guess@;
        let k = key@;
        let v = Variant::GreatWar;
        lemma_score_bounds(g, k, v, 0, 8);
        lemma_weight_sum_span_bound(v, 0, 8);
        lemma_score_bounds(g, k, v, 8, 16);
        lemma_weight_sum_span_bound(v, 8, 16);
        lemma_score_bounds(g, k, v, 16, 24);
        lemma_weight_sum_span_bound(v, 16, 24);
        lemma_score_bounds(g, k, v, 24, 32);
        lemma_weight_sum_span_bound(v, 24, 32);
        lemma_score_bounds(g, k, v, 32, 40);
        lemma_weight_sum_span_bound(v, 32, 40);
        lemma_score_bounds(g, k, v, 40, 48);
        lemma_weight_sum_span_bound(v, 40, 48);
        lemma_score_bounds(g, k, v, 48, 56);
        lemma_weight_sum_span_bound(v, 48, 56);
        lemma_score_bounds(g, k, v, 56, 64);
        lemma_weight_sum_span_bound(v, 56, 64);
        lemma_score_bounds(g, k, v, 64, 78);
        lemma_weight_sum_span_bound(v, 64, 78);
        lemma_score_decomposes(g, k, v, 0, 8, 16);
        lemma_score_decomposes(g, k, v, 0, 16, 24);
        lemma_score_decomposes(g, k, v, 0, 24, 32);
        lemma_score_decomposes(g, k, v, 0, 32, 40);
        lemma_score_decomposes(g, k, v, 0, 40, 48);
        lemma_score_decomposes(g, k, v, 0, 48, 56);
        lemma_score_decomposes(g, k, v, 0, 56, 64);
        lemma_score_decomposes(g, k, v, 0, 64, 78);
    }
    r1 + r2 + r3 + r4 + r5 + r6 + r7 + r8 + r9
}

/// Scores the first grid row of the GreatWar board (positions 0 to 7).
pub fn score_row_one(key: &[Square], guess: &[Square]) -> (r: i32)
    requires
        key@.len() >= 8,
        guess@.len() >= 8,
    ensures
        r == score_between(guess@, key@, Variant::GreatWar, 0, 8),
{
    score_span(key, guess, Variant::GreatWar, 0, 8)
}

/// Scores the second grid row of the GreatWar board (positions 8 to 15).
pub fn score_row_two(key: &[Square], guess: &[Square]) -> (r: i32)
    requires
        key@.len() >= 16,
        guess@.len() >= 16,
    ensures
        r == score_between(guess@, key@, Variant::GreatWar, 8, 16),
{
    score_span(key, guess, Variant::GreatWar, 8, 16)
}

/// Scores the third grid row of the GreatWar board (positions 16 to 23).
pub fn score_row_three(key: &[Square], guess: &[Square]) -> (r: i32)
    requires
        key@.len() >= 24,
        guess@.len() >= 24,
    ensures
        r == score_between(guess@, key@, Variant::GreatWar, 16, 24),
{
    score_span(key, guess, Variant::GreatWar, 16, 24)
}

/// Scores the fourth grid row of the GreatWar board (positions 24 to 31).
pub fn score_row_four(key: &[Square], guess: &[Square]) -> (r: i32)
    requires
        key@.len() >= 32,
        guess@.len() >= 32,
    ensures
        r == score_between(guess@, key@, Variant::GreatWar, 24, 32),
{
    score_span(key, guess, Variant::GreatWar, 24, 32)
}

/// Scores the fifth grid row of the GreatWar board (positions 32 to 39).
pub fn score_row_five(key: &[Square], guess: &[Square]) -> (r: i32)
    requires
        key@.len() >= 40,
        guess@.len() >= 40,
    ensures
        r == score_between(guess@, key@, Variant::GreatWar, 32, 40),
{
    score_span(key, guess, Variant::GreatWar, 32, 40)
}

/// Scores the sixth grid row of the GreatWar board (positions 40 to 47).
pub fn score_row_six(key: &[Square], guess: &[Square]) -> (r: i32)
    requires
        key@.len() >= 48,
        guess@.len() >= 48,
    ensures
        r == score_between(guess@, key@, Variant::GreatWar, 40, 48),
{
    score_span(key, guess, Variant::GreatWar, 40, 48)
}

/// Scores the seventh grid row of the GreatWar board (positions 48 to 55).
pub fn score_row_seven(key: &[Square], guess: &[Square]) -> (r: i32)
    requires
        key@.len() >= 56,
        guess@.len() >= 56,
    ensures
        r == score_between(guess@, key@, Variant::GreatWar, 48, 56),
{
    score_span(key, guess, Variant::GreatWar, 48, 56)
}

/// Scores the eighth grid row of the GreatWar board (positions 56 to 63).
pub fn score_row_eight(key: &[Square], guess: &[Square]) -> (r: i32)
    requires
        key@.len() >= 64,
        guess@.len() >= 64,
    ensures
        r == score_between(guess@, key@, Variant::GreatWar, 56, 64),
{
    score_span(key, guess, Variant::GreatWar, 56, 64)
}

/// Scores the fourteen flat-weighted bonus squares of the GreatWar board
/// (positions 64 to 77).
pub fn score_bonus(key: &[Square], guess: &[Square]) -> (r: i32)
    requires
        key@.len() >= 78,
        guess@.len() >= 78,
    ensures
        r == score_between(guess@, key@, Variant::GreatWar, 64, 78),
{
    score_span(key, guess, Variant::GreatWar, 64, 78)
}

} // verus!
