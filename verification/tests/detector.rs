use fastr::engine::{fast_reject, full_segment_test, is_corner};
use fastr::{bresenham_circle, detect, detect_scored, fast, score, Frame};

/// Builds a frame from a uniform background, then overwrites single pixels.
fn frame_with(w: u32, h: u32, background: u8, spots: &[(u32, u32, u8)]) -> Frame {
    let mut data = vec![background; (w * h) as usize];
    for &(x, y, v) in spots {
        data[(y * w + x) as usize] = v;
    }
    Frame::from_raw(w, h, data).expect("buffer holds width * height samples")
}

/// The 16 ring offsets around a center, as the sampler lays them out.
fn ring_spots(cx: u32, cy: u32, v: u8) -> Vec<(u32, u32, u8)> {
    bresenham_circle(cx, cy).into_iter().map(|(x, y)| (x, y, v)).collect()
}

#[test]
fn bresenham() {
    assert_eq!(bresenham_circle(16, 16).len(), 16)
}

#[test]
fn circle_has_16_distinct_coordinates() {
    let coords = bresenham_circle(10, 20);
    assert_eq!(coords.len(), 16);
    for i in 0..16 {
        for j in (i + 1)..16 {
            assert_ne!(coords[i], coords[j]);
        }
    }
    assert_eq!(coords[0], (10, 23));
    assert_eq!(coords[4], (13, 20));
    assert_eq!(coords[8], (10, 17));
    assert_eq!(coords[12], (7, 20));
}

#[test]
fn flat_frame_yields_no_corners() {
    let img = frame_with(12, 12, 128, &[]);
    assert_eq!(fast(&img), vec![]);
}

#[test]
fn uniform_bright_ring_is_corner() {
    let ring = vec![121i16; 16];
    assert!(is_corner(100, &ring, 20, 12));
}

#[test]
fn uniform_dark_ring_is_corner() {
    let ring = vec![79i16; 16];
    assert!(is_corner(100, &ring, 20, 12));
}

#[test]
fn samples_at_exact_threshold_are_similar() {
    // Boundary policy: a sample exactly at p + t or p - t is similar, so a
    // ring of such samples is no corner; one past the boundary is.
    let at_boundary = vec![120i16; 16];
    assert!(!is_corner(100, &at_boundary, 20, 12));
    let past_boundary = vec![121i16; 16];
    assert!(is_corner(100, &past_boundary, 20, 12));
}

#[test]
fn eleven_consecutive_outliers_are_no_corner() {
    let mut ring = vec![100i16; 16];
    for i in 0..11 {
        ring[i] = 121;
    }
    assert!(!is_corner(100, &ring, 20, 12));
}

#[test]
fn twelve_consecutive_outliers_are_a_corner() {
    let mut ring = vec![100i16; 16];
    for i in 2..14 {
        ring[i] = 121;
    }
    assert!(is_corner(100, &ring, 20, 12));
}

#[test]
fn run_wrapping_past_the_ring_end_is_not_detected() {
    // 12 consecutive outliers, but only around the wrap: indices 10..16 and
    // 0..6. The linear scan never sees 12 in a row.
    let mut ring = vec![100i16; 16];
    for i in 10..16 {
        ring[i] = 121;
    }
    for i in 0..6 {
        ring[i] = 121;
    }
    assert!(!is_corner(100, &ring, 20, 12));
}

#[test]
fn similar_opposite_pair_rejects_despite_long_run() {
    // Samples 1..8 are a run of 7 outliers, enough for an arc length of 6,
    // but samples 0 and 8 are similar to the center: the fast rejection
    // drops the candidate anyway.
    let mut ring = vec![100i16; 16];
    for i in 1..8 {
        ring[i] = 121;
    }
    assert!(full_segment_test(100, &ring, 20, 6));
    assert!(fast_reject(100, &ring, 20));
    assert!(!is_corner(100, &ring, 20, 6));
}

#[test]
fn score_of_uniform_bright_ring() {
    let ring = vec![121i16; 16];
    assert_eq!(score(100, &ring), 16 * 21);
}

#[test]
fn score_of_uniform_dark_ring() {
    let ring = vec![79i16; 16];
    assert_eq!(score(100, &ring), 16 * 21);
}

#[test]
fn score_of_flat_ring_is_zero() {
    let ring = vec![100i16; 16];
    assert_eq!(score(100, &ring), 0);
}

#[test]
fn implanted_bright_ring_is_detected() {
    let img = frame_with(11, 11, 100, &ring_spots(5, 5, 255));
    let points = fast(&img);
    assert!(points.contains(&(5, 5)));
}

#[test]
fn implanted_dark_ring_is_detected() {
    let img = frame_with(11, 11, 100, &ring_spots(5, 5, 0));
    let points = fast(&img);
    assert!(points.contains(&(5, 5)));
}

#[test]
fn detection_respects_the_border() {
    // A 10x10 frame leaves only 3 <= x, y <= 6 as interior pixels: whatever
    // the content, no coordinate outside that square is ever emitted.
    let img = frame_with(10, 10, 100, &ring_spots(4, 4, 255));
    let points = fast(&img);
    assert!(points.contains(&(4, 4)));
    for &(x, y) in &points {
        assert!((3..=6).contains(&x));
        assert!((3..=6).contains(&y));
    }
}

#[test]
fn dark_specks_are_found_in_scan_order() {
    // A dark pixel on a bright background is a corner (its whole ring is
    // brighter); every other candidate sees at most two outliers in its
    // ring. Results come in row-major scan order.
    let img = frame_with(12, 12, 255, &[(4, 4, 0), (8, 7, 0)]);
    assert_eq!(fast(&img), vec![(4, 4), (8, 7)]);
}

#[test]
fn frame_too_small_for_the_border_is_empty() {
    let img = frame_with(6, 9, 0, &[(3, 4, 255)]);
    assert_eq!(fast(&img), vec![]);
    let img = frame_with(9, 6, 0, &[(4, 3, 255)]);
    assert_eq!(fast(&img), vec![]);
}

#[test]
fn arc_length_over_16_detects_nothing() {
    let img = frame_with(11, 11, 100, &ring_spots(5, 5, 255));
    assert_eq!(detect(&img, 20, 17), vec![]);
}

#[test]
fn higher_threshold_needs_a_stronger_ring() {
    let weak = frame_with(11, 11, 100, &ring_spots(5, 5, 125));
    assert!(detect(&weak, 20, 12).contains(&(5, 5)));
    assert_eq!(detect(&weak, 30, 12), vec![]);
}

#[test]
fn scored_scan_attaches_the_ring_deviation_sum() {
    // A black speck on a white background: all 16 ring samples deviate by
    // 255, so its score is 16 * 255.
    let img = frame_with(12, 12, 255, &[(4, 4, 0), (8, 7, 0)]);
    assert_eq!(detect_scored(&img, 20, 12), vec![(4, 4, 16 * 255), (8, 7, 16 * 255)]);
}

#[test]
fn frame_from_raw_checks_the_buffer_length() {
    assert!(Frame::from_raw(4, 4, vec![0; 15]).is_none());
    let img = Frame::from_raw(4, 4, vec![7; 16]).expect("16 samples fit a 4x4 frame");
    assert_eq!(fast(&img), vec![]);
}
