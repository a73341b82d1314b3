//! Integer rectangles in physical pixels.

use vstd::prelude::*;

verus! {

/// A half-open pixel rectangle; it holds the points with
/// `x1 <= x < x2` and `y1 <= y < y2`.
#[derive(Clone, Copy, Debug, PartialEq, Eq, Structural)]
pub struct PhysicalRect {
    pub x1: usize,
    pub y1: usize,
    pub x2: usize,
    pub y2: usize,
}

/// A signed-origin rectangle as the display protocol carries it.
#[derive(Clone, Copy, Debug, PartialEq, Eq, Structural)]
pub struct Rect {
    pub x: i32,
    pub y: i32,
    pub width: u32,
    pub height: u32,
}

/// A pixel extent.
#[derive(Clone, Copy, Debug, PartialEq, Eq, Structural)]
pub struct Size {
    pub width: u32,
    pub height: u32,
}

/// Smaller of two coordinates.
pub open spec fn low(a: int, b: int) -> int {
    if a <= b {
        a
    } else {
        b
    }
}

/// Larger of two coordinates.
pub open spec fn high(a: int, b: int) -> int {
    if a >= b {
        a
    } else {
        b
    }
}

/// The smaller coordinate.
pub fn min_usize(a: usize, b: usize) -> (result: usize)
    ensures
        result == low(a as int, b as int),
{
    if a <= b {
        a
    } else {
        b
    }
}

/// The larger coordinate.
pub fn max_usize(a: usize, b: usize) -> (result: usize)
    ensures
        result == high(a as int, b as int),
{
    if a >= b {
        a
    } else {
        b
    }
}

impl PhysicalRect {
    /// The point `(x, y)` lies inside.
    pub open spec fn holds(self, x: int, y: int) -> bool {
        self.x1 <= x < self.x2 && self.y1 <= y < self.y2
    }

    /// No point lies inside.
    pub open spec fn void(self) -> bool {
        self.x2 <= self.x1 || self.y2 <= self.y1
    }

    /// Corner-wise intersection.
    pub open spec fn meet(self, other: PhysicalRect) -> PhysicalRect {
        PhysicalRect {
            x1: high(self.x1 as int, other.x1 as int) as usize,
            y1: high(self.y1 as int, other.y1 as int) as usize,
            x2: low(self.x2 as int, other.x2 as int) as usize,
            y2: low(self.y2 as int, other.y2 as int) as usize,
        }
    }

    /// Corner-wise bounding rectangle.
    pub open spec fn join(self, other: PhysicalRect) -> PhysicalRect {
        PhysicalRect {
            x1: low(self.x1 as int, other.x1 as int) as usize,
            y1: low(self.y1 as int, other.y1 as int) as usize,
            x2: high(self.x2 as int, other.x2 as int) as usize,
            y2: high(self.y2 as int, other.y2 as int) as usize,
        }
    }

    /// Intersection with another rectangle (empty if they do not overlap).
    pub fn intersect(self, other: PhysicalRect) -> (result: PhysicalRect)
        ensures
            result == self.meet(other),
    {
        PhysicalRect {
            x1: max_usize(self.x1, other.x1),
            y1: max_usize(self.y1, other.y1),
            x2: min_usize(self.x2, other.x2),
            y2: min_usize(self.y2, other.y2),
        }
    }

    /// The smallest rectangle around both corners' spans.
    pub fn union(self, other: PhysicalRect) -> (result: PhysicalRect)
        ensures
            result == self.join(other),
    {
        PhysicalRect {
            x1: min_usize(self.x1, other.x1),
            y1: min_usize(self.y1, other.y1),
            x2: max_usize(self.x2, other.x2),
            y2: max_usize(self.y2, other.y2),
        }
    }

    /// The rectangle by its corner and extent, cut to the target's numbers.
    pub open spec fn placed(self) -> Rect {
        Rect {
            x: self.x1 as i32,
            y: self.y1 as i32,
            width: (if self.x2 >= self.x1 {
                self.x2 - self.x1
            } else {
                0
            }) as u32,
            height: (if self.y2 >= self.y1 {
                self.y2 - self.y1
            } else {
                0
            }) as u32,
        }
    }

    /// The rectangle by its corner and extent.
    pub fn display_rect(self) -> (result: Rect)
        ensures
            result == self.placed(),
    {
        let width: usize = if self.x2 >= self.x1 {
            self.x2 - self.x1
        } else {
            0
        };
        let height: usize = if self.y2 >= self.y1 {
            self.y2 - self.y1
        } else {
            0
        };
        Rect {
            x: #[verifier::truncate] (self.x1 as i32),
            y: #[verifier::truncate] (self.y1 as i32),
            width: #[verifier::truncate] (width as u32),
            height: #[verifier::truncate] (height as u32),
        }
    }

    /// Whether the rectangle has no area.
    pub fn is_empty(self) -> (result: bool)
        ensures
            result == self.void(),
    {
        self.x2 <= self.x1 || self.y2 <= self.y1
    }
}

/// A rectangle is empty exactly when no point lies inside it.
pub proof fn empty_holds_nothing(rect: PhysicalRect)
    ensures
        rect.void() <==> forall|x: int, y: int| !#[trigger] rect.holds(x, y),
{
    if !rect.void() {
        assert(rect.holds(rect.x1 as int, rect.y1 as int));
    }
}

/// A point lies in the intersection exactly when it lies in both rectangles.
pub proof fn intersection_holds_common_points(a: PhysicalRect, b: PhysicalRect, x: int, y: int)
    ensures
        a.meet(b).holds(x, y) <==> a.holds(x, y) && b.holds(x, y),
{
}

/// The bounding rectangle holds every point of both rectangles.
pub proof fn union_holds_both(a: PhysicalRect, b: PhysicalRect, x: int, y: int)
    ensures
        a.holds(x, y) || b.holds(x, y) ==> a.join(b).holds(x, y),
{
}

/// Intersecting is commutative, associative and idempotent.
pub proof fn intersection_is_a_meet(a: PhysicalRect, b: PhysicalRect, c: PhysicalRect)
    ensures
        a.meet(b) == b.meet(a),
        a.meet(b).meet(c) == a.meet(b.meet(c)),
        a.meet(a) == a,
{
}

} // verus!
