use vstd::prelude::*;

verus! {

/// A point: x and y in surface pixel coordinates.
#[derive(Clone, Copy, PartialEq, Eq, Structural, Debug)]
pub struct Location2 {
    pub x: i32,
    pub y: i32,
}

impl Location2 {
    pub fn new(x: i32, y: i32) -> (p: Self)
        ensures
            p.x == x,
            p.y == y,
    {
        Self { x, y }
    }
}

impl From<Location4> for Location2 {
    /// Drops the width and height of a rectangle, keeping its origin.
    fn from(location: Location4) -> (p: Self) {
        Self { x: location.x, y: location.y }
    }
}

impl vstd::std_specs::convert::FromSpecImpl<Location4> for Location2 {
    open spec fn obeys_from_spec() -> bool {
        true
    }

    open spec fn from_spec(location: Location4) -> Self {
        Location2 { x: location.x, y: location.y }
    }
}

/// An axis-aligned rectangle: origin x, y and extent w, h, in surface pixel
/// coordinates.  Nothing prevents a negative width or height; the drawing
/// operations clip and the overlap test is defined for every value.
#[derive(Clone, Copy, PartialEq, Eq, Structural, Debug)]
pub struct Location4 {
    pub x: i32,
    pub y: i32,
    pub w: i32,
    pub h: i32,
}

impl Location4 {
    pub fn new(x: i32, y: i32, w: i32, h: i32) -> (r: Self)
        ensures
            r.x == x,
            r.y == y,
            r.w == w,
            r.h == h,
    {
        Self { x, y, w, h }
    }
}

/// Two axis-aligned rectangles overlap exactly when all four half-plane
/// comparisons hold strictly.  A shared edge is not an overlap.
pub open spec fn rects_overlap(
    x1: int,
    y1: int,
    w1: int,
    h1: int,
    x2: int,
    y2: int,
    w2: int,
    h2: int,
) -> bool {
    x1 < x2 + w2 && x2 < x1 + w1 && y1 < y2 + h2 && y2 < y1 + h1
}

/// The overlap test does not care which rectangle comes first.
pub proof fn lemma_overlap_symmetric(
    x1: int,
    y1: int,
    w1: int,
    h1: int,
    x2: int,
    y2: int,
    w2: int,
    h2: int,
)
    ensures
        rects_overlap(x1, y1, w1, h1, x2, y2, w2, h2) == rects_overlap(
            x2,
            y2,
            w2,
            h2,
            x1,
            y1,
            w1,
            h1,
        ),
{
}

/// A rectangle with no width or no height never overlaps itself: the strict
/// inequalities leave a degenerate rectangle nothing to meet.
pub proof fn lemma_zero_area_never_overlaps_self(x: int, y: int, w: int, h: int)
    requires
        w == 0 || h == 0,
    ensures
        !rects_overlap(x, y, w, h, x, y, w, h),
{
}

/// A zero-area rectangle overlaps another rectangle exactly when its corner
/// point lies strictly inside that rectangle.
pub proof fn lemma_zero_area_needs_interior_point(
    x1: int,
    y1: int,
    x2: int,
    y2: int,
    w2: int,
    h2: int,
)
    ensures
        rects_overlap(x1, y1, 0, 0, x2, y2, w2, h2) == (x2 < x1 && x1 < x2 + w2 && y2 < y1 && y1
            < y2 + h2),
{
}

/// A 1-by-1 probe rectangle at (x, y) overlaps a target rectangle exactly
/// under the four strict comparisons; in particular the probe at the target's
/// top-right boundary pixel (rx + rw, ry) never registers.
pub proof fn lemma_unit_probe(rx: int, ry: int, rw: int, rh: int, x: int, y: int)
    ensures
        rects_overlap(rx, ry, rw, rh, x, y, 1, 1) == (rx < x + 1 && x < rx + rw && ry < y + 1 && y
            < ry + rh),
        !rects_overlap(rx, ry, rw, rh, rx + rw, ry, 1, 1),
{
}

} // verus!
