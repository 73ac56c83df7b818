//! Lines through two integer points and their crossing points, computed
//! exactly.
use crate::point::{lemma_product_bound, Point, Vec2};
use vstd::prelude::*;

verus! {

/// The line through `p1` and `p2`; as a segment, the part between them.
#[derive(Copy, Clone, Debug)]
pub struct Line {
    pub p1: Point,
    pub p2: Point,
}

/// A point with rational coordinates `(x / d, y / d)`, `d != 0`.
#[derive(Copy, Clone, Debug)]
pub struct Crossing {
    pub x: i128,
    pub y: i128,
    pub d: i128,
}

/// The smaller of two numbers.
pub open spec fn min2(a: int, b: int) -> int {
    if a < b {
        a
    } else {
        b
    }
}

/// The larger of two numbers.
pub open spec fn max2(a: int, b: int) -> int {
    if a > b {
        a
    } else {
        b
    }
}

/// Cross product of the directions `a1 - a2` and `b1 - b2`; zero where the
/// lines through them are parallel.
pub open spec fn det(a1: Vec2, a2: Vec2, b1: Vec2, b2: Vec2) -> int {
    a1.minus(a2).cross(b1.minus(b2))
}

/// `det` times the x coordinate of the point where the line through `a1` and
/// `a2` crosses the line through `b1` and `b2`.
pub open spec fn crossing_x(a1: Vec2, a2: Vec2, b1: Vec2, b2: Vec2) -> int {
    b1.minus(b2).x * a1.cross(a2) - a1.minus(a2).x * b1.cross(b2)
}

/// `det` times the y coordinate of that point.
pub open spec fn crossing_y(a1: Vec2, a2: Vec2, b1: Vec2, b2: Vec2) -> int {
    b1.minus(b2).y * a1.cross(a2) - a1.minus(a2).y * b1.cross(b2)
}

/// Smallest x coordinate among the four points.
pub open spec fn low_x(a1: Vec2, a2: Vec2, b1: Vec2, b2: Vec2) -> int {
    min2(min2(a1.x, a2.x), min2(b1.x, b2.x))
}

/// Largest x coordinate among the four points.
pub open spec fn high_x(a1: Vec2, a2: Vec2, b1: Vec2, b2: Vec2) -> int {
    max2(max2(a1.x, a2.x), max2(b1.x, b2.x))
}

/// The crossing test for the segments `a1 a2` and `b1 b2`: their lines are
/// not parallel, and the x coordinate of the point where the lines cross lies
/// between the smallest and the largest x of the four end points. Nothing is
/// asked of its y coordinate.
pub open spec fn crosses(a1: Vec2, a2: Vec2, b1: Vec2, b2: Vec2) -> bool {
    let d = det(a1, a2, b1, b2);
    let x = crossing_x(a1, a2, b1, b2);
    if d > 0 {
        low_x(a1, a2, b1, b2) * d <= x <= high_x(a1, a2, b1, b2) * d
    } else if d < 0 {
        high_x(a1, a2, b1, b2) * d <= x <= low_x(a1, a2, b1, b2) * d
    } else {
        false
    }
}

impl Line {
    /// Cross product of the directions of the two lines; zero where they are
    /// parallel.
    pub open spec fn det(self, l: Line) -> int {
        det(self.p1@, self.p2@, l.p1@, l.p2@)
    }

    /// `det` times the x coordinate of the point where the two lines cross.
    pub open spec fn crossing_x(self, l: Line) -> int {
        crossing_x(self.p1@, self.p2@, l.p1@, l.p2@)
    }

    /// `det` times the y coordinate of the point where the two lines cross.
    pub open spec fn crossing_y(self, l: Line) -> int {
        crossing_y(self.p1@, self.p2@, l.p1@, l.p2@)
    }

    /// The crossing test for the two segments.
    pub open spec fn crosses(self, l: Line) -> bool {
        crosses(self.p1@, self.p2@, l.p1@, l.p2@)
    }

    /// The corner of the segment's bounding box with the smallest coordinates.
    pub fn min(&self) -> (r: Point)
        ensures
            r@.x == min2(self.p1@.x, self.p2@.x),
            r@.y == min2(self.p1@.y, self.p2@.y),
    {
        self.p1.min(&self.p2)
    }

    /// The corner of the segment's bounding box with the largest coordinates.
    pub fn max(&self) -> (r: Point)
        ensures
            r@.x == max2(self.p1@.x, self.p2@.x),
            r@.y == max2(self.p1@.y, self.p2@.y),
    {
        self.p1.max(&self.p2)
    }

    /// The point where the two lines cross, where `crosses` accepts it.
    pub fn intersect(&self, l: &Line) -> (r: Option<Crossing>)
        ensures
            r.is_some() == self.crosses(*l),
            r matches Some(c) ==> c.d == self.det(*l) && c.x == self.crossing_x(*l) && c.y
                == self.crossing_y(*l),
    {
        let d1x: i128 = self.p1.x as i128 - self.p2.x as i128;
        let d1y: i128 = self.p1.y as i128 - self.p2.y as i128;
        let d2x: i128 = l.p1.x as i128 - l.p2.x as i128;
        let d2y: i128 = l.p1.y as i128 - l.p2.y as i128;
        proof {
            lemma_product_bound(d1x as int, d2y as int, 0x1_0000_0000, 0x1_0000_0000);
            lemma_product_bound(d1y as int, d2x as int, 0x1_0000_0000, 0x1_0000_0000);
        }
        let d: i128 = d1x * d2y - d1y * d2x;
        if d == 0 {
            None
        } else {
            let c1: i128 = self.p1.cross_wide(&self.p2);
            let c2: i128 = l.p1.cross_wide(&l.p2);
            proof {
                lemma_product_bound(d2x as int, c1 as int, 0x1_0000_0000, 0x8000_0000_0000_0000);
                lemma_product_bound(d1x as int, c2 as int, 0x1_0000_0000, 0x8000_0000_0000_0000);
                lemma_product_bound(d2y as int, c1 as int, 0x1_0000_0000, 0x8000_0000_0000_0000);
                lemma_product_bound(d1y as int, c2 as int, 0x1_0000_0000, 0x8000_0000_0000_0000);
            }
            let xi: i128 = d2x * c1 - d1x * c2;
            let yi: i128 = d2y * c1 - d1y * c2;
            let low: i128 = l.min().min(&self.min()).x as i128;
            let high: i128 = l.max().max(&self.max()).x as i128;
            proof {
                lemma_product_bound(low as int, d as int, 0x8000_0000, 0x2_0000_0000_0000_0000);
                lemma_product_bound(high as int, d as int, 0x8000_0000, 0x2_0000_0000_0000_0000);
            }
            let accepted: bool = if d > 0 {
                low * d <= xi && xi <= high * d
            } else {
                high * d <= xi && xi <= low * d
            };
            if accepted {
                Some(Crossing { x: xi, y: yi, d })
            } else {
                None
            }
        }
    }
}

} // verus!
