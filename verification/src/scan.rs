//! The frame scanner: drives the segment test over every interior pixel of a
//! frame, in row-major order, and collects the positions that pass.

use vstd::prelude::*;
use crate::engine::{
    bright_window, dark_window, has_bright_run, has_dark_run, is_corner, is_corner_spec, is_similar,
};
use crate::gray::{gray_height, gray_pixels, gray_width, Frame};
use crate::ring::{bresenham_circle, cdx, cdy, lemma_circle_offsets_small};
use crate::score::{score, score_spec};

verus! {

/// The intensity of pixel `(x, y)`, widened to the signed domain the engine
/// computes in.
pub open spec fn pixel_at(pix: Map<(int, int), u8>, x: int, y: int) -> i16 {
    pix[(x, y)] as i16
}

/// The 16 ring intensities around the center `(cx, cy)`, in ring order.
pub open spec fn ring_vals(pix: Map<(int, int), u8>, cx: int, cy: int) -> Seq<i16> {
    Seq::new(16, |i: int| pixel_at(pix, cx + cdx(i), cy + cdy(i)))
}

/// Whether the interior pixel `(x, y)` is classified as a corner.
pub open spec fn is_keypoint_at(pix: Map<(int, int), u8>, x: int, y: int, t: int, n: int) -> bool {
    is_corner_spec(pixel_at(pix, x, y) as int, ring_vals(pix, x, y), t, n)
}

/// The keypoints of row `y` among columns `3 <= x < x_end`, in scan order.
pub open spec fn row_keypoints(
    pix: Map<(int, int), u8>,
    y: int,
    x_end: int,
    t: int,
    n: int,
) -> Seq<(u32, u32)>
    decreases x_end,
{
    if x_end <= 3 {
        Seq::empty()
    } else {
        row_keypoints(pix, y, x_end - 1, t, n) + (if is_keypoint_at(pix, x_end - 1, y, t, n) {
            seq![((x_end - 1) as u32, y as u32)]
        } else {
            Seq::empty()
        })
    }
}

/// The keypoints of all rows `3 <= y < y_end` of a frame `w` pixels wide,
/// row by row in scan order.
pub open spec fn rows_keypoints(
    pix: Map<(int, int), u8>,
    w: int,
    y_end: int,
    t: int,
    n: int,
) -> Seq<(u32, u32)>
    decreases y_end,
{
    if y_end <= 3 {
        Seq::empty()
    } else {
        rows_keypoints(pix, w, y_end - 1, t, n) + row_keypoints(pix, y_end - 1, w - 3, t, n)
    }
}

/// Every keypoint of a `w` by `h` frame: the interior pixels, those at least
/// 3 pixels from every edge, that the segment test accepts, in row-major
/// scan order.
pub open spec fn detected_keypoints(
    pix: Map<(int, int), u8>,
    w: int,
    h: int,
    t: int,
    n: int,
) -> Seq<(u32, u32)> {
    rows_keypoints(pix, w, h - 3, t, n)
}

proof fn lemma_rows_empty_when_narrow(pix: Map<(int, int), u8>, w: int, y_end: int, t: int, n: int)
    requires
        w <= 6,
    ensures
        rows_keypoints(pix, w, y_end, t, n) == Seq::<(u32, u32)>::empty(),
    decreases y_end,
{
    if y_end > 3 {
        lemma_rows_empty_when_narrow(pix, w, y_end - 1, t, n);
        assert(rows_keypoints(pix, w, y_end, t, n) =~= Seq::<(u32, u32)>::empty());
    }
}

/// Law: a frame too small to hold any interior pixel, narrower or lower
/// than 7, yields an empty result; never an error.
pub proof fn lemma_small_frame_detects_nothing(
    pix: Map<(int, int), u8>,
    w: int,
    h: int,
    t: int,
    n: int,
)
    requires
        w <= 6 || h <= 6,
    ensures
        detected_keypoints(pix, w, h, t, n) == Seq::<(u32, u32)>::empty(),
{
    if w <= 6 {
        lemma_rows_empty_when_narrow(pix, w, h - 3, t, n);
    }
}

/// Fetch the 16 ring intensities around an interior center, in ring order.
fn ring_intensities(img: &Frame, x: u32, y: u32) -> (r: Vec<i16>)
    requires
        3 <= x as int,
        x as int + 3 < gray_width(*img),
        3 <= y as int,
        y as int + 3 < gray_height(*img),
        gray_width(*img) <= u32::MAX as nat,
        gray_height(*img) <= u32::MAX as nat,
    ensures
        r@ == ring_vals(gray_pixels(*img), x as int, y as int),
{
    let ghost pix = gray_pixels(*img);
    let coords = bresenham_circle(x, y);
    let mut ring: Vec<i16> = Vec::new();
    let mut k: usize = 0;
    while k < 16
        invariant
            pix == gray_pixels(*img),
            3 <= x as int,
            x as int + 3 < gray_width(*img),
            3 <= y as int,
            y as int + 3 < gray_height(*img),
            coords@.len() == 16,
            forall|i: int|
                0 <= i < 16 ==> (#[trigger] coords@[i]).0 as int == x as int + cdx(i)
                    && coords@[i].1 as int == y as int + cdy(i),
            k <= 16,
            ring@.len() == k as int,
            forall|j: int| 0 <= j < k as int ==> ring@[j] == ring_vals(pix, x as int, y as int)[j],
        decreases 16 - k,
    {
        let (qx, qy) = coords[k];
        proof {
            lemma_circle_offsets_small();
            assert(-3 <= cdx(k as int) <= 3);
            assert(-3 <= cdy(k as int) <= 3);
        }
        let v = img.get(qx, qy);
        ring.push(v as i16);
        k += 1;
    }
    proof {
        assert(ring@ =~= ring_vals(pix, x as int, y as int));
    }
    ring
}

/// Scan the whole frame: classify every interior pixel and return the
/// positions of the corners in row-major scan order. A frame too small to
/// hold any interior pixel yields an empty result, never an error; an arc
/// length over 16 is satisfiable by no ring, so it also yields an empty
/// result.
pub fn detect(img: &Frame, threshold: i16, arc_length: usize) -> (r: Vec<(u32, u32)>)
    requires
        1 <= threshold,
    ensures
        r@ == detected_keypoints(
            gray_pixels(*img),
            gray_width(*img) as int,
            gray_height(*img) as int,
            threshold as int,
            arc_length as int,
        ),
{
    let w = img.width();
    let h = img.height();
    let ghost pix = gray_pixels(*img);
    let ghost ti: int = threshold as int;
    let ghost ni: int = arc_length as int;
    let mut out: Vec<(u32, u32)> = Vec::new();
    if w < 7 || h < 7 {
        proof {
            lemma_small_frame_detects_nothing(pix, w as int, h as int, ti, ni);
            assert(out@ =~= detected_keypoints(pix, w as int, h as int, ti, ni));
        }
        return out;
    }
    let mut y: u32 = 3;
    while y < h - 3
        invariant
            w as nat == gray_width(*img),
            h as nat == gray_height(*img),
            pix == gray_pixels(*img),
            ti == threshold as int,
            ni == arc_length as int,
            1 <= threshold,
            7 <= w,
            7 <= h,
            3 <= y <= h - 3,
            out@ == rows_keypoints(pix, w as int, y as int, ti, ni),
        decreases h as int - y as int,
    {
        let mut x: u32 = 3;
        while x < w - 3
            invariant
                w as nat == gray_width(*img),
                h as nat == gray_height(*img),
                pix == gray_pixels(*img),
                ti == threshold as int,
                ni == arc_length as int,
                1 <= threshold,
                7 <= w,
                7 <= h,
                3 <= y,
                (y as int) < h as int - 3,
                3 <= x <= w - 3,
                out@ == rows_keypoints(pix, w as int, y as int, ti, ni) + row_keypoints(
                    pix,
                    y as int,
                    x as int,
                    ti,
                    ni,
                ),
            decreases w as int - x as int,
        {
            let p = img.get(x, y) as i16;
            let ring = ring_intensities(img, x, y);
            let corner = is_corner(p, &ring, threshold, arc_length);
            if corner {
                out.push((x, y));
            }
            proof {
                assert(out@ =~= rows_keypoints(pix, w as int, y as int, ti, ni) + row_keypoints(
                    pix,
                    y as int,
                    x as int + 1,
                    ti,
                    ni,
                ));
            }
            x += 1;
        }
        proof {
            assert(out@ =~= rows_keypoints(pix, w as int, y as int + 1, ti, ni));
        }
        y += 1;
    }
    out
}

/// Detect corners with the reference parameters: intensity threshold 20 and
/// a required arc of 12 consecutive outliers out of the 16 ring samples.
pub fn fast(img: &Frame) -> (r: Vec<(u32, u32)>)
    ensures
        r@ == detected_keypoints(
            gray_pixels(*img),
            gray_width(*img) as int,
            gray_height(*img) as int,
            20,
            12,
        ),
{
    detect(img, 20, 12)
}

/// Scan the whole frame and attach to every keypoint its corner strength:
/// the sum over its 16 ring samples of the absolute difference from its
/// center intensity. The positions and their order are exactly those of
/// `detect`.
pub fn detect_scored(img: &Frame, threshold: i16, arc_length: usize) -> (r: Vec<(u32, u32, u32)>)
    requires
        1 <= threshold,
    ensures
        r@.len() == detected_keypoints(
            gray_pixels(*img),
            gray_width(*img) as int,
            gray_height(*img) as int,
            threshold as int,
            arc_length as int,
        ).len(),
        forall|k: int|
            0 <= k < r@.len() ==> ((#[trigger] r@[k]).0, r@[k].1) == detected_keypoints(
                gray_pixels(*img),
                gray_width(*img) as int,
                gray_height(*img) as int,
                threshold as int,
                arc_length as int,
            )[k] && r@[k].2 as int == score_spec(
                pixel_at(gray_pixels(*img), r@[k].0 as int, r@[k].1 as int) as int,
                ring_vals(gray_pixels(*img), r@[k].0 as int, r@[k].1 as int),
            ),
{
    let ghost pix = gray_pixels(*img);
    let ghost wi: int = gray_width(*img) as int;
    let ghost hi: int = gray_height(*img) as int;
    let ghost ti: int = threshold as int;
    let ghost ni: int = arc_length as int;
    let w = img.width();
    let h = img.height();
    let pts = detect(img, threshold, arc_length);
    proof {
        lemma_keypoints_respect_border(pix, wi, hi, ti, ni);
    }
    let mut out: Vec<(u32, u32, u32)> = Vec::new();
    let mut idx: usize = 0;
    while idx < pts.len()
        invariant
            pix == gray_pixels(*img),
            wi == gray_width(*img) as int,
            hi == gray_height(*img) as int,
            ti == threshold as int,
            ni == arc_length as int,
            w as int == wi,
            h as int == hi,
            pts@ == detected_keypoints(pix, wi, hi, ti, ni),
            forall|k: int| 0 <= k < pts@.len() ==> within_border(#[trigger] pts@[k], wi, hi),
            idx <= pts@.len(),
            out@.len() == idx as int,
            forall|k: int|
                0 <= k < idx as int ==> ((#[trigger] out@[k]).0, out@[k].1) == pts@[k]
                    && out@[k].2 as int == score_spec(
                    pixel_at(pix, out@[k].0 as int, out@[k].1 as int) as int,
                    ring_vals(pix, out@[k].0 as int, out@[k].1 as int),
                ),
        decreases pts@.len() - idx as int,
    {
        let (x, y) = pts[idx];
        proof {
            assert(within_border(pts@[idx as int], wi, hi));
        }
        let p = img.get(x, y) as i16;
        let ring = ring_intensities(img, x, y);
        let s = score(p, &ring);
        out.push((x, y, s));
        idx += 1;
    }
    out
}

proof fn lemma_row_empty_without_keypoints(
    pix: Map<(int, int), u8>,
    y: int,
    x_end: int,
    t: int,
    n: int,
)
    requires
        forall|x: int| 3 <= x < x_end ==> !is_keypoint_at(pix, x, y, t, n),
    ensures
        row_keypoints(pix, y, x_end, t, n) == Seq::<(u32, u32)>::empty(),
    decreases x_end,
{
    if x_end > 3 {
        lemma_row_empty_without_keypoints(pix, y, x_end - 1, t, n);
        assert(!is_keypoint_at(pix, x_end - 1, y, t, n));
        assert(row_keypoints(pix, y, x_end, t, n) =~= Seq::<(u32, u32)>::empty());
    }
}

proof fn lemma_rows_empty_without_keypoints(
    pix: Map<(int, int), u8>,
    w: int,
    y_end: int,
    t: int,
    n: int,
)
    requires
        forall|x: int, y: int|
            3 <= x < w - 3 && 3 <= y < y_end ==> !is_keypoint_at(pix, x, y, t, n),
    ensures
        rows_keypoints(pix, w, y_end, t, n) == Seq::<(u32, u32)>::empty(),
    decreases y_end,
{
    if y_end > 3 {
        lemma_rows_empty_without_keypoints(pix, w, y_end - 1, t, n);
        lemma_row_empty_without_keypoints(pix, y_end - 1, w - 3, t, n);
        assert(rows_keypoints(pix, w, y_end, t, n) =~= Seq::<(u32, u32)>::empty());
    }
}

/// Law: a frame of uniform intensity yields no keypoints, whatever the
/// positive threshold and the arc length are.
pub proof fn lemma_flat_frame_detects_nothing(
    pix: Map<(int, int), u8>,
    w: int,
    h: int,
    c: u8,
    t: int,
    n: int,
)
    requires
        1 <= t,
        forall|x: int, y: int| 0 <= x < w && 0 <= y < h ==> (#[trigger] pix[(x, y)]) == c,
    ensures
        detected_keypoints(pix, w, h, t, n) == Seq::<(u32, u32)>::empty(),
{
    assert forall|x: int, y: int|
        3 <= x < w - 3 && 3 <= y < h - 3 implies !is_keypoint_at(pix, x, y, t, n) by {
        assert(pix[(x, y)] == c);
        assert(pix[(x, y + 3)] == c);
        assert(pix[(x, y - 3)] == c);
        assert(ring_vals(pix, x, y)[0] == c as i16);
        assert(ring_vals(pix, x, y)[8] == c as i16);
        assert(is_similar(ring_vals(pix, x, y)[0], pixel_at(pix, x, y) as int, t));
        assert(is_similar(ring_vals(pix, x, y)[8], pixel_at(pix, x, y) as int, t));
    }
    lemma_rows_empty_without_keypoints(pix, w, h - 3, t, n);
}

/// Law: an arc length over 16 is satisfiable by no ring, so nothing is ever
/// detected with it, whatever the frame holds and whatever the threshold is.
pub proof fn lemma_long_arc_detects_nothing(
    pix: Map<(int, int), u8>,
    w: int,
    h: int,
    t: int,
    n: int,
)
    requires
        16 < n,
    ensures
        detected_keypoints(pix, w, h, t, n) == Seq::<(u32, u32)>::empty(),
{
    assert forall|x: int, y: int|
        3 <= x < w - 3 && 3 <= y < h - 3 implies !is_keypoint_at(pix, x, y, t, n) by {
        let p = pixel_at(pix, x, y) as int;
        let ring = ring_vals(pix, x, y);
        if has_bright_run(ring, p, t, n) {
            let s = choose|s: int|
                0 <= s && s + n <= ring.len() && #[trigger] bright_window(ring, p, t, s, n);
            assert(false);
        }
        if has_dark_run(ring, p, t, n) {
            let s = choose|s: int|
                0 <= s && s + n <= ring.len() && #[trigger] dark_window(ring, p, t, s, n);
            assert(false);
        }
    }
    lemma_rows_empty_without_keypoints(pix, w, h - 3, t, n);
}


/// The keypoint `kp` lies in row `y`, in the column range the scan of that
/// row covers.
spec fn kp_in_row(kp: (u32, u32), y: int, x_end: int) -> bool {
    &&& 3 <= kp.0 as int
    &&& kp.0 as int + 1 <= x_end
    &&& kp.1 as int == y
}

/// The keypoint `kp` lies in the interior columns of a frame `w` pixels
/// wide, in a row below `y_end`.
spec fn kp_in_rows(kp: (u32, u32), w: int, y_end: int) -> bool {
    &&& 3 <= kp.0 as int
    &&& kp.0 as int + 3 < w
    &&& 3 <= kp.1 as int
    &&& kp.1 as int + 1 <= y_end
}

/// The coordinate pair `kp` is at least 3 pixels away from every edge of a
/// `w` by `h` frame.
pub open spec fn within_border(kp: (u32, u32), w: int, h: int) -> bool {
    &&& 3 <= kp.0 as int
    &&& kp.0 as int + 3 < w
    &&& 3 <= kp.1 as int
    &&& kp.1 as int + 3 < h
}

proof fn lemma_row_keypoints_in_border(pix: Map<(int, int), u8>, y: int, x_end: int, t: int, n: int)
    requires
        0 <= y <= u32::MAX as int,
        x_end <= u32::MAX as int,
    ensures
        forall|k: int|
            0 <= k < row_keypoints(pix, y, x_end, t, n).len() ==> kp_in_row(
                #[trigger] row_keypoints(pix, y, x_end, t, n)[k],
                y,
                x_end,
            ),
    decreases x_end,
{
    if x_end > 3 {
        lemma_row_keypoints_in_border(pix, y, x_end - 1, t, n);
        assert forall|k: int| 0 <= k < row_keypoints(pix, y, x_end, t, n).len() implies kp_in_row(
            #[trigger] row_keypoints(pix, y, x_end, t, n)[k],
            y,
            x_end,
        ) by {
            let prefix = row_keypoints(pix, y, x_end - 1, t, n);
            if k < prefix.len() {
                assert(row_keypoints(pix, y, x_end, t, n)[k] == prefix[k]);
                assert(kp_in_row(prefix[k], y, x_end - 1));
            } else {
                assert(row_keypoints(pix, y, x_end, t, n)[k] == (((x_end - 1) as u32), (y as u32)));
            }
        }
    }
}

proof fn lemma_rows_keypoints_in_border(
    pix: Map<(int, int), u8>,
    w: int,
    y_end: int,
    t: int,
    n: int,
)
    requires
        0 <= w <= u32::MAX as int,
        y_end <= u32::MAX as int,
    ensures
        forall|k: int|
            0 <= k < rows_keypoints(pix, w, y_end, t, n).len() ==> kp_in_rows(
                #[trigger] rows_keypoints(pix, w, y_end, t, n)[k],
                w,
                y_end,
            ),
    decreases y_end,
{
    if y_end > 3 {
        lemma_rows_keypoints_in_border(pix, w, y_end - 1, t, n);
        lemma_row_keypoints_in_border(pix, y_end - 1, w - 3, t, n);
        assert forall|k: int| 0 <= k < rows_keypoints(pix, w, y_end, t, n).len() implies kp_in_rows(
            #[trigger] rows_keypoints(pix, w, y_end, t, n)[k],
            w,
            y_end,
        ) by {
            let prefix = rows_keypoints(pix, w, y_end - 1, t, n);
            let row = row_keypoints(pix, y_end - 1, w - 3, t, n);
            if k < prefix.len() {
                assert(rows_keypoints(pix, w, y_end, t, n)[k] == prefix[k]);
                assert(kp_in_rows(prefix[k], w, y_end - 1));
            } else {
                assert(rows_keypoints(pix, w, y_end, t, n)[k] == row[k - prefix.len()]);
                assert(kp_in_row(row[k - prefix.len()], y_end - 1, w - 3));
            }
        }
    }
}

/// Law: scanning respects the border. Every keypoint the scanner can emit
/// for a `w` by `h` frame lies at least 3 pixels from every edge: its
/// coordinates satisfy `3 <= x < w - 3` and `3 <= y < h - 3`.
pub proof fn lemma_keypoints_respect_border(
    pix: Map<(int, int), u8>,
    w: int,
    h: int,
    t: int,
    n: int,
)
    requires
        0 <= w <= u32::MAX as int,
        0 <= h <= u32::MAX as int,
    ensures
        forall|k: int|
            0 <= k < detected_keypoints(pix, w, h, t, n).len() ==> within_border(
                #[trigger] detected_keypoints(pix, w, h, t, n)[k],
                w,
                h,
            ),
{
    lemma_rows_keypoints_in_border(pix, w, h - 3, t, n);
}

} // verus!
