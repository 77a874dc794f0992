//! The circle sampler: the fixed ring of 16 sample positions at radius 3
//! around a center pixel, the Bresenham approximation of a circle.

use vstd::prelude::*;

verus! {

/// Horizontal offset of ring sample `i` from the center, in ring order.
pub open spec fn cdx(i: int) -> int {
    if i == 0 {
        0
    } else if i == 1 {
        1
    } else if i == 2 {
        2
    } else if i == 3 {
        3
    } else if i == 4 {
        3
    } else if i == 5 {
        3
    } else if i == 6 {
        2
    } else if i == 7 {
        1
    } else if i == 8 {
        0
    } else if i == 9 {
        -1
    } else if i == 10 {
        -2
    } else if i == 11 {
        -3
    } else if i == 12 {
        -3
    } else if i == 13 {
        -3
    } else if i == 14 {
        -2
    } else {
        -1
    }
}

/// Vertical offset of ring sample `i` from the center, in ring order.
pub open spec fn cdy(i: int) -> int {
    if i == 0 {
        3
    } else if i == 1 {
        3
    } else if i == 2 {
        2
    } else if i == 3 {
        1
    } else if i == 4 {
        0
    } else if i == 5 {
        -1
    } else if i == 6 {
        -2
    } else if i == 7 {
        -3
    } else if i == 8 {
        -3
    } else if i == 9 {
        -3
    } else if i == 10 {
        -2
    } else if i == 11 {
        -1
    } else if i == 12 {
        0
    } else if i == 13 {
        1
    } else if i == 14 {
        2
    } else {
        3
    }
}

/// Ring sample `i` of the circle centered at `(cx, cy)`.
pub open spec fn circle_point(cx: int, cy: int, i: int) -> (int, int) {
    (cx + cdx(i), cy + cdy(i))
}

/// Every ring offset stays within the radius-3 box around the center.
pub proof fn lemma_circle_offsets_small()
    ensures
        forall|i: int| 0 <= i < 16 ==> -3 <= #[trigger] cdx(i) <= 3,
        forall|i: int| 0 <= i < 16 ==> -3 <= #[trigger] cdy(i) <= 3,
{
}

/// The 16 ring positions around any center are pairwise distinct.
pub proof fn lemma_circle_points_distinct(cx: int, cy: int)
    ensures
        forall|i: int, j: int|
            0 <= i < 16 && 0 <= j < 16 && i != j ==> circle_point(cx, cy, i) != circle_point(
                cx,
                cy,
                j,
            ),
{
    assert forall|i: int, j: int|
        0 <= i < 16 && 0 <= j < 16 && i != j implies circle_point(cx, cy, i) != circle_point(
        cx,
        cy,
        j,
    ) by {
        assert(cdx(i) != cdx(j) || cdy(i) != cdy(j));
    }
}

/// The ring of 16 sample coordinates around `(cx, cy)`, in ring order.
///
/// The sampler does no bounds checking of its own: the center must be at
/// least 3 pixels away from every edge of the coordinate space, which the
/// precondition states, so that no coordinate underflows or overflows.
pub fn bresenham_circle(cx: u32, cy: u32) -> (r: Vec<(u32, u32)>)
    requires
        3 <= cx as int,
        cx as int + 3 <= u32::MAX as int,
        3 <= cy as int,
        cy as int + 3 <= u32::MAX as int,
    ensures
        r@.len() == 16,
        forall|i: int|
            0 <= i < 16 ==> (#[trigger] r@[i]).0 as int == cx as int + cdx(i) && r@[i].1 as int
                == cy as int + cdy(i),
        forall|i: int, j: int| 0 <= i < j < 16 ==> r@[i] != r@[j],
{
    let r: Vec<(u32, u32)> = vec![
        (cx, cy + 3),
        (cx + 1, cy + 3),
        (cx + 2, cy + 2),
        (cx + 3, cy + 1),
        (cx + 3, cy),
        (cx + 3, cy - 1),
        (cx + 2, cy - 2),
        (cx + 1, cy - 3),
        (cx, cy - 3),
        (cx - 1, cy - 3),
        (cx - 2, cy - 2),
        (cx - 3, cy - 1),
        (cx - 3, cy),
        (cx - 3, cy + 1),
        (cx - 2, cy + 2),
        (cx - 1, cy + 3),
    ];
    proof {
        lemma_circle_points_distinct(cx as int, cy as int);
        assert forall|i: int, j: int| 0 <= i < j < 16 implies r@[i] != r@[j] by {
            assert(circle_point(cx as int, cy as int, i) != circle_point(cx as int, cy as int, j));
        }
    }
    r
}

} // verus!
