//! The segment test engine: classifies one candidate pixel as corner or
//! non-corner from its center intensity and the 16 ring intensities.

use vstd::prelude::*;

verus! {

/// Sample `v` is brighter than the center `p` beyond the threshold `t`.
pub open spec fn is_brighter(v: i16, p: int, t: int) -> bool {
    v as int > p + t
}

/// Sample `v` is darker than the center `p` beyond the threshold `t`.
pub open spec fn is_darker(v: i16, p: int, t: int) -> bool {
    (v as int) < p - t
}

/// Sample `v` is similar to the center `p`: strictly within `(p-t, p+t)`.
/// A sample exactly at `p - t` or `p + t` counts as similar.
pub open spec fn is_similar(v: i16, p: int, t: int) -> bool {
    p - t < v as int && (v as int) < p + t
}

/// The `n` samples starting at index `s` are all brighter than the center.
pub open spec fn bright_window(ring: Seq<i16>, p: int, t: int, s: int, n: int) -> bool {
    forall|j: int| s <= j < s + n ==> is_brighter(#[trigger] ring[j], p, t)
}

/// The `n` samples starting at index `s` are all darker than the center.
pub open spec fn dark_window(ring: Seq<i16>, p: int, t: int, s: int, n: int) -> bool {
    forall|j: int| s <= j < s + n ==> is_darker(#[trigger] ring[j], p, t)
}

/// Some `n` consecutive samples, in linear (non-wrapping) order, are all
/// brighter than the center beyond the threshold.
pub open spec fn has_bright_run(ring: Seq<i16>, p: int, t: int, n: int) -> bool {
    exists|s: int| 0 <= s && s + n <= ring.len() && #[trigger] bright_window(ring, p, t, s, n)
}

/// Some `n` consecutive samples, in linear (non-wrapping) order, are all
/// darker than the center beyond the threshold.
pub open spec fn has_dark_run(ring: Seq<i16>, p: int, t: int, n: int) -> bool {
    exists|s: int| 0 <= s && s + n <= ring.len() && #[trigger] dark_window(ring, p, t, s, n)
}

/// The fast rejection heuristic: the candidate is dropped when both members
/// of one opposite compass pair of the ring (samples 0 and 8, or samples 4
/// and 12) are similar to the center. This can reject pixels that the full
/// run test would accept; that trade is intentional.
pub open spec fn fast_reject_spec(p: int, ring: Seq<i16>, t: int) -> bool {
    (is_similar(ring[0], p, t) && is_similar(ring[8], p, t)) || (is_similar(ring[4], p, t)
        && is_similar(ring[12], p, t))
}

/// The whole per-pixel decision: the candidate is a corner when the fast
/// rejection does not fire and some `n` consecutive ring samples, scanned
/// linearly without wrap-around, are uniformly brighter or uniformly darker
/// than the center beyond the threshold.
pub open spec fn is_corner_spec(p: int, ring: Seq<i16>, t: int, n: int) -> bool {
    &&& !fast_reject_spec(p, ring, t)
    &&& (has_bright_run(ring, p, t, n) || has_dark_run(ring, p, t, n))
}

/// Length of the run of consecutive brighter samples ending just before
/// index `i`.
pub open spec fn bright_streak(ring: Seq<i16>, p: int, t: int, i: int) -> int
    decreases i,
{
    if i <= 0 {
        0
    } else if is_brighter(ring[i - 1], p, t) {
        bright_streak(ring, p, t, i - 1) + 1
    } else {
        0
    }
}

/// Length of the run of consecutive darker samples ending just before
/// index `i`.
pub open spec fn dark_streak(ring: Seq<i16>, p: int, t: int, i: int) -> int
    decreases i,
{
    if i <= 0 {
        0
    } else if is_darker(ring[i - 1], p, t) {
        dark_streak(ring, p, t, i - 1) + 1
    } else {
        0
    }
}

proof fn lemma_streak_bounds(ring: Seq<i16>, p: int, t: int, i: int)
    requires
        0 <= i,
    ensures
        0 <= bright_streak(ring, p, t, i) <= i,
        0 <= dark_streak(ring, p, t, i) <= i,
    decreases i,
{
    if i > 0 {
        lemma_streak_bounds(ring, p, t, i - 1);
    }
}

proof fn lemma_bright_streak_window(ring: Seq<i16>, p: int, t: int, i: int, n: int)
    requires
        0 <= n <= bright_streak(ring, p, t, i),
    ensures
        bright_window(ring, p, t, i - n, n),
    decreases n,
{
    if n > 0 {
        lemma_bright_streak_window(ring, p, t, i - 1, n - 1);
        assert forall|j: int| i - n <= j < i implies is_brighter(#[trigger] ring[j], p, t) by {
            if j < i - 1 {
                assert(bright_window(ring, p, t, i - 1 - (n - 1), n - 1));
            }
        }
    }
}

proof fn lemma_dark_streak_window(ring: Seq<i16>, p: int, t: int, i: int, n: int)
    requires
        0 <= n <= dark_streak(ring, p, t, i),
    ensures
        dark_window(ring, p, t, i - n, n),
    decreases n,
{
    if n > 0 {
        lemma_dark_streak_window(ring, p, t, i - 1, n - 1);
        assert forall|j: int| i - n <= j < i implies is_darker(#[trigger] ring[j], p, t) by {
            if j < i - 1 {
                assert(dark_window(ring, p, t, i - 1 - (n - 1), n - 1));
            }
        }
    }
}

proof fn lemma_bright_window_streak(ring: Seq<i16>, p: int, t: int, s: int, n: int)
    requires
        0 <= s,
        0 <= n,
        bright_window(ring, p, t, s, n),
    ensures
        bright_streak(ring, p, t, s + n) >= n,
    decreases n,
{
    lemma_streak_bounds(ring, p, t, s + n);
    if n > 0 {
        assert forall|j: int| s <= j < s + (n - 1) implies is_brighter(#[trigger] ring[j], p, t) by {
            assert(bright_window(ring, p, t, s, n));
        }
        lemma_bright_window_streak(ring, p, t, s, n - 1);
        assert(is_brighter(ring[s + n - 1], p, t));
    }
}

proof fn lemma_dark_window_streak(ring: Seq<i16>, p: int, t: int, s: int, n: int)
    requires
        0 <= s,
        0 <= n,
        dark_window(ring, p, t, s, n),
    ensures
        dark_streak(ring, p, t, s + n) >= n,
    decreases n,
{
    lemma_streak_bounds(ring, p, t, s + n);
    if n > 0 {
        assert forall|j: int| s <= j < s + (n - 1) implies is_darker(#[trigger] ring[j], p, t) by {
            assert(dark_window(ring, p, t, s, n));
        }
        lemma_dark_window_streak(ring, p, t, s, n - 1);
        assert(is_darker(ring[s + n - 1], p, t));
    }
}

/// The fast rejection pre-check over the four compass samples of the ring.
pub fn fast_reject(p: i16, ring: &Vec<i16>, threshold: i16) -> (r: bool)
    requires
        ring@.len() == 16,
    ensures
        r == fast_reject_spec(p as int, ring@, threshold as int),
{
    let pc = p as i32;
    let t = threshold as i32;
    let v0 = ring[0] as i32;
    let v4 = ring[4] as i32;
    let v8 = ring[8] as i32;
    let v12 = ring[12] as i32;
    (v0 > pc - t && v0 < pc + t && v8 > pc - t && v8 < pc + t) || (v4 > pc - t && v4 < pc + t
        && v12 > pc - t && v12 < pc + t)
}

/// The full segment test: scan the 16 ring samples in order, counting the
/// current runs of consecutive brighter and of consecutive darker samples,
/// and accept as soon as either run reaches `arc_length`. The scan is
/// linear: a run that would only close by wrapping past the end of the ring
/// back to its start is not detected.
pub fn full_segment_test(p: i16, ring: &Vec<i16>, threshold: i16, arc_length: usize) -> (r: bool)
    requires
        ring@.len() == 16,
        1 <= threshold,
    ensures
        r == (has_bright_run(ring@, p as int, threshold as int, arc_length as int) || has_dark_run(
            ring@,
            p as int,
            threshold as int,
            arc_length as int,
        )),
{
    let pc = p as i32;
    let t = threshold as i32;
    if arc_length == 0 {
        proof {
            assert(bright_window(ring@, p as int, threshold as int, 0, 0));
            assert(has_bright_run(ring@, p as int, threshold as int, 0));
        }
        return true;
    }
    let mut brighter: usize = 0;
    let mut darker: usize = 0;
    let mut i: usize = 0;
    while i < 16
        invariant
            ring@.len() == 16,
            i <= 16,
            1 <= arc_length,
            1 <= threshold,
            pc == p as i32,
            t == threshold as i32,
            brighter as int == bright_streak(ring@, p as int, threshold as int, i as int),
            darker as int == dark_streak(ring@, p as int, threshold as int, i as int),
            forall|k: int|
                0 <= k <= i as int ==> #[trigger] bright_streak(ring@, p as int, threshold as int, k)
                    < arc_length as int,
            forall|k: int|
                0 <= k <= i as int ==> #[trigger] dark_streak(ring@, p as int, threshold as int, k)
                    < arc_length as int,
        decreases 16 - i,
    {
        let v = ring[i] as i32;
        if v > pc + t {
            brighter += 1;
            darker = 0;
        } else if v < pc - t {
            darker += 1;
            brighter = 0;
        } else {
            brighter = 0;
            darker = 0;
        }
        i += 1;
        if brighter == arc_length {
            proof {
                lemma_streak_bounds(ring@, p as int, threshold as int, i as int);
                lemma_bright_streak_window(
                    ring@,
                    p as int,
                    threshold as int,
                    i as int,
                    arc_length as int,
                );
                assert(has_bright_run(ring@, p as int, threshold as int, arc_length as int));
            }
            return true;
        }
        if darker == arc_length {
            proof {
                lemma_streak_bounds(ring@, p as int, threshold as int, i as int);
                lemma_dark_streak_window(
                    ring@,
                    p as int,
                    threshold as int,
                    i as int,
                    arc_length as int,
                );
                assert(has_dark_run(ring@, p as int, threshold as int, arc_length as int));
            }
            return true;
        }
    }
    proof {
        if has_bright_run(ring@, p as int, threshold as int, arc_length as int) {
            let s = choose|s: int|
                0 <= s && s + arc_length as int <= ring@.len() && #[trigger] bright_window(
                    ring@,
                    p as int,
                    threshold as int,
                    s,
                    arc_length as int,
                );
            lemma_bright_window_streak(ring@, p as int, threshold as int, s, arc_length as int);
            assert(false);
        }
        if has_dark_run(ring@, p as int, threshold as int, arc_length as int) {
            let s = choose|s: int|
                0 <= s && s + arc_length as int <= ring@.len() && #[trigger] dark_window(
                    ring@,
                    p as int,
                    threshold as int,
                    s,
                    arc_length as int,
                );
            lemma_dark_window_streak(ring@, p as int, threshold as int, s, arc_length as int);
            assert(false);
        }
    }
    false
}

/// The whole per-pixel decision: fast rejection first, then the full
/// segment test.
pub fn is_corner(p: i16, ring: &Vec<i16>, threshold: i16, arc_length: usize) -> (r: bool)
    requires
        ring@.len() == 16,
        1 <= threshold,
    ensures
        r == is_corner_spec(p as int, ring@, threshold as int, arc_length as int),
{
    if fast_reject(p, ring, threshold) {
        return false;
    }
    full_segment_test(p, ring, threshold, arc_length)
}

/// Law: a ring that is uniformly brighter than the center beyond the
/// threshold is classified as a corner, for any arc length up to the ring
/// size.
pub proof fn lemma_uniform_bright_ring_is_corner(p: int, ring: Seq<i16>, t: int, n: int)
    requires
        ring.len() == 16,
        0 <= n <= 16,
        forall|i: int| 0 <= i < 16 ==> is_brighter(#[trigger] ring[i], p, t),
    ensures
        is_corner_spec(p, ring, t, n),
{
    assert(bright_window(ring, p, t, 0, n));
    assert(is_brighter(ring[0], p, t));
    assert(is_brighter(ring[4], p, t));
}

/// Law: a ring that is uniformly darker than the center beyond the
/// threshold is classified as a corner, for any arc length up to the ring
/// size.
pub proof fn lemma_uniform_dark_ring_is_corner(p: int, ring: Seq<i16>, t: int, n: int)
    requires
        ring.len() == 16,
        0 <= n <= 16,
        forall|i: int| 0 <= i < 16 ==> is_darker(#[trigger] ring[i], p, t),
    ensures
        is_corner_spec(p, ring, t, n),
{
    assert(dark_window(ring, p, t, 0, n));
    assert(is_darker(ring[0], p, t));
    assert(is_darker(ring[4], p, t));
}

/// Law: when ring samples 0 and 8 are both similar to the center, the
/// candidate is rejected whatever the other samples hold and whatever the
/// arc length is.
pub proof fn lemma_opposite_pair_similar_rejects(p: int, ring: Seq<i16>, t: int, n: int)
    requires
        ring.len() == 16,
        is_similar(ring[0], p, t),
        is_similar(ring[8], p, t),
    ensures
        !is_corner_spec(p, ring, t, n),
{
}

} // verus!
