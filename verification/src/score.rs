//! The score function: a corner strength metric, the sum over the 16 ring
//! samples of the absolute intensity deviation from the center. The engine
//! never uses it to decide corner or non-corner; it only ranks.

use vstd::prelude::*;

verus! {

/// Absolute intensity deviation of one ring sample from the center.
pub open spec fn abs_dev(v: i16, p: int) -> int {
    if v as int >= p {
        v as int - p
    } else {
        p - v as int
    }
}

/// Sum of the absolute deviations of the first `i` ring samples.
pub open spec fn score_prefix(p: int, ring: Seq<i16>, i: int) -> int
    decreases i,
{
    if i <= 0 {
        0
    } else {
        score_prefix(p, ring, i - 1) + abs_dev(ring[i - 1], p)
    }
}

/// The corner score: the sum over all 16 ring samples of the absolute
/// difference between the sample and the center intensity.
pub open spec fn score_spec(p: int, ring: Seq<i16>) -> int {
    score_prefix(p, ring, 16)
}

proof fn lemma_score_prefix_nonneg(p: int, ring: Seq<i16>, i: int)
    ensures
        score_prefix(p, ring, i) >= 0,
    decreases i,
{
    if i > 0 {
        lemma_score_prefix_nonneg(p, ring, i - 1);
    }
}

/// Law: the score is a sum of 16 terms, each of them non-negative, so the
/// score itself is non-negative.
pub proof fn lemma_score_nonneg(p: int, ring: Seq<i16>)
    ensures
        forall|i: int| 0 <= i < 16 ==> #[trigger] abs_dev(ring[i], p) >= 0,
        score_spec(p, ring) >= 0,
{
    lemma_score_prefix_nonneg(p, ring, 16);
}

/// The corner strength of a candidate with center intensity `p` and ring
/// intensities `ring`.
pub fn score(p: i16, ring: &Vec<i16>) -> (r: u32)
    requires
        ring@.len() == 16,
    ensures
        r as int == score_spec(p as int, ring@),
{
    let pc = p as i32;
    let mut acc: u32 = 0;
    let mut i: usize = 0;
    while i < 16
        invariant
            ring@.len() == 16,
            i <= 16,
            pc == p as i32,
            acc as int == score_prefix(p as int, ring@, i as int),
            acc as int <= 65535 * (i as int),
        decreases 16 - i,
    {
        let v = ring[i] as i32;
        let d = if v >= pc {
            v - pc
        } else {
            pc - v
        };
        acc = acc + (d as u32);
        i += 1;
    }
    acc
}

} // verus!
