//! Integer geometry: points, vectors of a given length, and lines.
use vstd::prelude::*;

verus! {

/// A point or vector of the mathematical plane with integer coordinates: what
/// a `Point` stands for in contracts.
pub struct Vec2 {
    pub x: int,
    pub y: int,
}

impl Vec2 {
    /// The origin.
    pub open spec fn zero() -> Vec2 {
        Vec2 { x: 0, y: 0 }
    }

    /// The sum of two vectors.
    pub open spec fn plus(self, o: Vec2) -> Vec2 {
        Vec2 { x: self.x + o.x, y: self.y + o.y }
    }

    /// The difference of two vectors.
    pub open spec fn minus(self, o: Vec2) -> Vec2 {
        Vec2 { x: self.x - o.x, y: self.y - o.y }
    }

    /// The vector scaled by `k`.
    pub open spec fn times(self, k: int) -> Vec2 {
        Vec2 { x: self.x * k, y: self.y * k }
    }

    /// The opposite vector.
    pub open spec fn neg(self) -> Vec2 {
        Vec2 { x: -self.x, y: -self.y }
    }

    /// Squared length.
    pub open spec fn norm2(self) -> int {
        self.x * self.x + self.y * self.y
    }

    /// Squared distance to `o`.
    pub open spec fn dist2(self, o: Vec2) -> int {
        self.minus(o).norm2()
    }

    /// `o` lies within `radius` of `self` (the border counts).
    pub open spec fn in_range(self, o: Vec2, radius: int) -> bool {
        self.dist2(o) <= radius * radius
    }

    /// Cross product `self x o`.
    pub open spec fn cross(self, o: Vec2) -> int {
        self.x * o.y - self.y * o.x
    }

    /// The image of `self` under the point reflection through `center`.
    pub open spec fn reflect(self, center: Vec2) -> Vec2 {
        Vec2 { x: 2 * center.x - self.x, y: 2 * center.y - self.y }
    }

    /// Both coordinates fit in an `i32`.
    pub open spec fn fits(self) -> bool {
        i32::MIN <= self.x <= i32::MAX && i32::MIN <= self.y <= i32::MAX
    }

    /// Both coordinates lie in `[-bound, bound]`.
    pub open spec fn within(self, bound: int) -> bool {
        -bound <= self.x <= bound && -bound <= self.y <= bound
    }
}

/// `n` is the integer part of the square root of `m`.
pub open spec fn is_floor_sqrt(m: int, n: int) -> bool {
    0 <= n && n * n <= m < (n + 1) * (n + 1)
}

/// The integer part of the square root of `m`.
pub open spec fn floor_sqrt(m: int) -> int {
    choose|n: int| is_floor_sqrt(m, n)
}

/// The quotient `a / b` rounded toward zero, as machine division does.
pub open spec fn trunc_div(a: int, b: int) -> int {
    if a >= 0 && b > 0 {
        a / b
    } else if a >= 0 {
        -(a / (-b))
    } else if b > 0 {
        -((-a) / b)
    } else {
        (-a) / (-b)
    }
}

/// The quotient `a / n` for `n > 0`, rounded to the nearest integer, halves away
/// from zero.
pub open spec fn round_div(a: int, n: int) -> int {
    if a >= 0 {
        (2 * a + n) / (2 * n)
    } else {
        -((2 * (-a) + n) / (2 * n))
    }
}

/// The vector that points from `from` toward `to` with its length scaled to
/// `length`: each coordinate of `to - from` is multiplied by `length`, divided by
/// the integer part of the distance, and rounded. Zero where the points agree.
pub open spec fn heading(from: Vec2, to: Vec2, length: int) -> Vec2 {
    let d = to.minus(from);
    if d == Vec2::zero() {
        Vec2::zero()
    } else {
        let n = floor_sqrt(d.norm2());
        Vec2 { x: round_div(d.x * length, n), y: round_div(d.y * length, n) }
    }
}

/// The displacement of one move from `from` toward `to` at `speed`: the whole
/// way where `to` is within reach, else a vector of length `speed`.
pub open spec fn step_toward(from: Vec2, to: Vec2, speed: int) -> Vec2 {
    if from.in_range(to, speed) {
        to.minus(from)
    } else {
        heading(from, to, speed)
    }
}

/// Squaring keeps the order of numbers that are not negative.
pub proof fn lemma_square_monotonic(a: int, b: int)
    by (nonlinear_arith)
    requires
        0 <= a <= b,
    ensures
        a * a <= b * b,
{
}

/// A product of bounded numbers is bounded by the product of the bounds.
pub proof fn lemma_product_bound(a: int, b: int, p: int, q: int)
    by (nonlinear_arith)
    requires
        -p <= a <= p,
        -q <= b <= q,
    ensures
        -(p * q) <= a * b <= p * q,
{
}

/// At most one integer is the integer part of the square root of `m`.
pub proof fn lemma_floor_sqrt_unique(m: int, n: int)
    requires
        is_floor_sqrt(m, n),
    ensures
        floor_sqrt(m) == n,
{
    let r = floor_sqrt(m);
    assert(is_floor_sqrt(m, r));
    if r < n {
        lemma_square_monotonic(r + 1, n);
    } else if n < r {
        lemma_square_monotonic(n + 1, r);
    }
}

/// Every natural number has an integer square root.
pub proof fn lemma_floor_sqrt_exists(m: int)
    requires
        0 <= m,
    ensures
        is_floor_sqrt(m, floor_sqrt(m)),
    decreases m,
{
    if m == 0 {
        assert(is_floor_sqrt(0, 0));
    } else {
        lemma_floor_sqrt_exists(m - 1);
        let r = floor_sqrt(m - 1);
        if (r + 1) * (r + 1) <= m {
            assert((r + 1) * (r + 1) < (r + 2) * (r + 2)) by (nonlinear_arith)
                requires
                    0 <= r,
            ;
            assert(is_floor_sqrt(m, r + 1));
        } else {
            assert(is_floor_sqrt(m, r));
        }
    }
}

/// A coordinate of a vector is no longer than the integer part of its length.
pub proof fn lemma_floor_sqrt_dominates(d: Vec2)
    ensures
        -floor_sqrt(d.norm2()) <= d.x <= floor_sqrt(d.norm2()),
        -floor_sqrt(d.norm2()) <= d.y <= floor_sqrt(d.norm2()),
        d != Vec2::zero() ==> floor_sqrt(d.norm2()) >= 1,
{
    let m = d.norm2();
    assert(m >= 0 && m >= d.x * d.x && m >= d.y * d.y && (d != Vec2::zero() ==> m >= 1))
        by (nonlinear_arith)
        requires
            m == d.x * d.x + d.y * d.y,
    ;
    lemma_floor_sqrt_exists(m);
    let n = floor_sqrt(m);
    assert(-n <= d.x <= n) by (nonlinear_arith)
        requires
            0 <= n,
            d.x * d.x < (n + 1) * (n + 1),
    ;
    assert(-n <= d.y <= n) by (nonlinear_arith)
        requires
            0 <= n,
            d.y * d.y < (n + 1) * (n + 1),
    ;
    if d != Vec2::zero() && n == 0 {
        assert(false);
    }
}

/// Rounding a product `a * length` over `n` stays within `length` where `a` is
/// within `n`.
pub proof fn lemma_round_div_bound(a: int, length: int, n: int)
    requires
        n >= 1,
        length >= 0,
        -n <= a <= n,
    ensures
        -length <= round_div(a * length, n) <= length,
{
    lemma_product_bound(a, length, n, length);
    let p = a * length;
    let q = if p >= 0 {
        p
    } else {
        -p
    };
    assert(0 <= (2 * q + n) / (2 * n) <= length) by (nonlinear_arith)
        requires
            n >= 1,
            length >= 0,
            0 <= q <= n * length,
    ;
}

/// A heading of length `length >= 0` has both coordinates within `length`.
pub proof fn lemma_heading_bound(from: Vec2, to: Vec2, length: int)
    requires
        length >= 0,
    ensures
        heading(from, to, length).within(length),
{
    let d = to.minus(from);
    if d != Vec2::zero() {
        lemma_floor_sqrt_dominates(d);
        let n = floor_sqrt(d.norm2());
        lemma_round_div_bound(d.x, length, n);
        lemma_round_div_bound(d.y, length, n);
    }
}

/// One move at `speed >= 0` changes neither coordinate by more than `speed`.
pub proof fn lemma_step_toward_bound(from: Vec2, to: Vec2, speed: int)
    requires
        speed >= 0,
    ensures
        step_toward(from, to, speed).within(speed),
{
    if from.in_range(to, speed) {
        let d = to.minus(from);
        assert(d.within(speed)) by (nonlinear_arith)
            requires
                speed >= 0,
                (-d.x) * (-d.x) + (-d.y) * (-d.y) <= speed * speed,
        ;
    } else {
        lemma_heading_bound(from, to, speed);
    }
}

/// Reflecting twice through the same center gives the point back.
pub proof fn lemma_reflect_involution(p: Vec2, center: Vec2)
    ensures
        p.reflect(center).reflect(center) == p,
{
}

/// The integer part of the square root of `m`.
pub fn isqrt(m: u128) -> (r: u64)
    ensures
        r == floor_sqrt(m as int),
{
    let mut lo: u128 = 0;
    let mut hi: u128 = 0x1_0000_0000_0000_0000;
    assert(hi * hi > m) by (nonlinear_arith)
        requires
            hi == 0x1_0000_0000_0000_0000,
            m <= u128::MAX,
    ;
    while hi - lo > 1
        invariant
            lo < hi <= 0x1_0000_0000_0000_0000,
            lo * lo <= m < hi * hi,
        decreases hi - lo,
    {
        let mid: u128 = lo + (hi - lo) / 2;
        proof {
            lemma_square_monotonic(mid as int, 0xffff_ffff_ffff_ffff);
        }
        if mid * mid <= m {
            lo = mid;
        } else {
            hi = mid;
        }
    }
    proof {
        lemma_floor_sqrt_unique(m as int, lo as int);
    }
    lo as u64
}

/// `a * length / n` rounded to the nearest integer, halves away from zero.
fn scale_coordinate(a: i64, length: i32, n: u64) -> (r: i32)
    requires
        n >= 1,
        length >= 0,
        -n <= a <= n,
        n <= 0x1_ffff_ffff,
    ensures
        r == round_div(a * length, n as int),
{
    proof {
        lemma_round_div_bound(a as int, length as int, n as int);
        lemma_product_bound(a as int, length as int, 0x1_ffff_ffff, 0x7fff_ffff);
    }
    let p: i128 = (a as i128) * (length as i128);
    let n2: i128 = 2 * (n as i128);
    if p >= 0 {
        ((2 * p + n as i128) / n2) as i32
    } else {
        (-((2 * (-p) + n as i128) / n2)) as i32
    }
}

/// `a / b`, rounded toward zero.
fn divide(a: i32, b: i32) -> (r: i32)
    requires
        b != 0,
        !(a == i32::MIN && b == -1),
    ensures
        r == trunc_div(a as int, b as int),
{
    let n: i64 = a as i64;
    let d: i64 = b as i64;
    if n >= 0 && d > 0 {
        (n / d) as i32
    } else if n >= 0 {
        (-(n / (-d))) as i32
    } else if d > 0 {
        (-((-n) / d)) as i32
    } else if d == -1 {
        assert(trunc_div(a as int, b as int) == (-n) / 1);
        (-n) as i32
    } else {
        assert(0 <= (-n) / (-d) <= -n) by (nonlinear_arith)
            requires
                -n > 0,
                -d > 1,
        ;
        assert(2 * ((-n) / (-d)) <= -n) by (nonlinear_arith)
            requires
                -n > 0,
                -d > 1,
        ;
        ((-n) / (-d)) as i32
    }
}

/// A point or vector of the plane with integer coordinates.
#[derive(Copy, Clone, PartialEq, Eq, Structural, Debug)]
pub struct Point {
    pub y: i32,
    pub x: i32,
}

/// A point with integer coordinates.
pub type IPoint = Point;

impl View for Point {
    type V = Vec2;

    open spec fn view(&self) -> Vec2 {
        Vec2 { x: self.x as int, y: self.y as int }
    }
}

impl Point {
    /// The origin.
    pub fn new() -> (r: Point)
        ensures
            r@ == Vec2::zero(),
    {
        Point { y: 0, x: 0 }
    }

    /// The opposite vector.
    pub fn flip(&self) -> (r: Point)
        requires
            self@.neg().fits(),
        ensures
            r@ == self@.neg(),
    {
        Point { y: -self.y, x: -self.x }
    }

    /// The sum of two vectors.
    pub fn add(self, rhs: Point) -> (r: Point)
        requires
            self@.plus(rhs@).fits(),
        ensures
            r@ == self@.plus(rhs@),
    {
        Point { x: self.x + rhs.x, y: self.y + rhs.y }
    }

    /// The difference of two vectors.
    pub fn sub(self, rhs: Point) -> (r: Point)
        requires
            self@.minus(rhs@).fits(),
        ensures
            r@ == self@.minus(rhs@),
    {
        Point { x: self.x - rhs.x, y: self.y - rhs.y }
    }

    /// The vector scaled by `rhs`.
    pub fn mul(self, rhs: i32) -> (r: Point)
        requires
            self@.times(rhs as int).fits(),
        ensures
            r@ == self@.times(rhs as int),
    {
        Point { x: self.x * rhs, y: self.y * rhs }
    }

    /// Each coordinate divided by `rhs`, rounded toward zero.
    pub fn div(self, rhs: i32) -> (r: Point)
        requires
            rhs != 0,
            rhs == -1 ==> self@.neg().fits(),
        ensures
            r.x == trunc_div(self.x as int, rhs as int),
            r.y == trunc_div(self.y as int, rhs as int),
    {
        Point { x: divide(self.x, rhs), y: divide(self.y, rhs) }
    }

    /// Each coordinate divided by the vector's rounded length, toward zero.
    pub fn normalize(self) -> (r: Point)
        requires
            self@ != Vec2::zero(),
        ensures
            r.x == trunc_div(self.x as int, clip(floor_sqrt(self@.norm2()))),
            r.y == trunc_div(self.y as int, clip(floor_sqrt(self@.norm2()))),
    {
        proof {
            lemma_floor_sqrt_dominates(self@);
        }
        let n: i32 = self.norm();
        self.div(n)
    }

    /// The smaller of the two points in each coordinate.
    pub fn min(self, p: &Point) -> (r: Point)
        ensures
            r.x == if self.x < p.x { self.x } else { p.x },
            r.y == if self.y < p.y { self.y } else { p.y },
    {
        Point {
            y: if self.y < p.y { self.y } else { p.y },
            x: if self.x < p.x { self.x } else { p.x },
        }
    }

    /// The larger of the two points in each coordinate.
    pub fn max(self, p: &Point) -> (r: Point)
        ensures
            r.x == if self.x > p.x { self.x } else { p.x },
            r.y == if self.y > p.y { self.y } else { p.y },
    {
        Point {
            y: if self.y > p.y { self.y } else { p.y },
            x: if self.x > p.x { self.x } else { p.x },
        }
    }

    /// Squared distance, in full width.
    pub fn distance2_wide(&self, other: &Point) -> (r: u128)
        ensures
            r == self@.dist2(other@),
            r < 0x4_0000_0000_0000_0000,
    {
        let dx: i128 = self.x as i128 - other.x as i128;
        let dy: i128 = self.y as i128 - other.y as i128;
        proof {
            lemma_product_bound(dx as int, dx as int, 0xffff_ffff, 0xffff_ffff);
            lemma_product_bound(dy as int, dy as int, 0xffff_ffff, 0xffff_ffff);
            assert(dx * dx >= 0 && dy * dy >= 0) by (nonlinear_arith);
        }
        (dx * dx + dy * dy) as u128
    }

    /// Squared distance to `other`.
    pub fn distance2(&self, other: &Point) -> (r: i32)
        requires
            self@.dist2(other@) <= i32::MAX,
        ensures
            r == self@.dist2(other@),
    {
        self.distance2_wide(other) as i32
    }

    /// Distance to `other`, rounded down; `i32::MAX` where it is larger.
    pub fn distance(&self, other: &Point) -> (r: i32)
        ensures
            r == clip(floor_sqrt(self@.dist2(other@))),
    {
        let n: u64 = isqrt(self.distance2_wide(other));
        if n > 0x7fff_ffff {
            i32::MAX
        } else {
            n as i32
        }
    }

    /// Squared length.
    pub fn norm2(&self) -> (r: i32)
        requires
            self@.norm2() <= i32::MAX,
        ensures
            r == self@.norm2(),
    {
        let origin = Point::new();
        assert(self@.dist2(origin@) == self@.norm2());
        self.distance2(&origin)
    }

    /// Length, rounded down; `i32::MAX` where it is larger.
    pub fn norm(&self) -> (r: i32)
        ensures
            r == clip(floor_sqrt(self@.norm2())),
    {
        let origin = Point::new();
        assert(self@.dist2(origin@) == self@.norm2());
        self.distance(&origin)
    }

    /// The image of the point under the point reflection through `center`.
    pub fn point_symmetry(&self, center: &Point) -> (r: Point)
        requires
            self@.reflect(center@).fits(),
        ensures
            r@ == self@.reflect(center@),
    {
        Point {
            x: (2 * (center.x as i64) - self.x as i64) as i32,
            y: (2 * (center.y as i64) - self.y as i64) as i32,
        }
    }

    /// Whether `p` lies within `radius` of the point (the border counts).
    pub fn in_range(&self, p: &Point, radius: i32) -> (r: bool)
        ensures
            r == self@.in_range(p@, radius as int),
    {
        let d2: u128 = p.distance2_wide(self);
        let rad: i128 = radius as i128;
        proof {
            lemma_product_bound(rad as int, rad as int, 0x8000_0000, 0x8000_0000);
            assert(rad * rad >= 0) by (nonlinear_arith);
            assert(p@.dist2(self@) == self@.dist2(p@)) by (nonlinear_arith)
                requires
                    p@.dist2(self@) == (p@.x - self@.x) * (p@.x - self@.x) + (p@.y - self@.y) * (
                    p@.y - self@.y),
                    self@.dist2(p@) == (self@.x - p@.x) * (self@.x - p@.x) + (self@.y - p@.y) * (
                    self@.y - p@.y),
            ;
        }
        d2 <= (rad * rad) as u128
    }

    /// Whether the point `(x, y)` lies within `radius` of the point (the
    /// border counts).
    pub fn in_range_wide(&self, x: i64, y: i64, radius: i32) -> (r: bool)
        requires
            -0x2_0000_0000 <= x <= 0x2_0000_0000,
            -0x2_0000_0000 <= y <= 0x2_0000_0000,
        ensures
            r == self@.in_range(Vec2 { x: x as int, y: y as int }, radius as int),
    {
        let dx: i128 = self.x as i128 - x as i128;
        let dy: i128 = self.y as i128 - y as i128;
        let rad: i128 = radius as i128;
        proof {
            lemma_product_bound(dx as int, dx as int, 0x4_0000_0000, 0x4_0000_0000);
            lemma_product_bound(dy as int, dy as int, 0x4_0000_0000, 0x4_0000_0000);
            lemma_product_bound(rad as int, rad as int, 0x8000_0000, 0x8000_0000);
        }
        dx * dx + dy * dy <= rad * rad
    }

    /// Cross product with `p`.
    pub fn cross(&self, p: &Point) -> (r: i32)
        requires
            i32::MIN <= self@.cross(p@) <= i32::MAX,
        ensures
            r == self@.cross(p@),
    {
        self.cross_wide(p) as i32
    }

    /// Cross product with `p`, in full width.
    pub fn cross_wide(&self, p: &Point) -> (r: i128)
        ensures
            r == self@.cross(p@),
            -0x8000_0000_0000_0000 <= r <= 0x8000_0000_0000_0000,
    {
        proof {
            lemma_product_bound(self.x as int, p.y as int, 0x8000_0000, 0x8000_0000);
            lemma_product_bound(self.y as int, p.x as int, 0x8000_0000, 0x8000_0000);
        }
        (self.x as i128) * (p.y as i128) - (self.y as i128) * (p.x as i128)
    }

    /// The vector of length `length` that points from here toward `target`.
    pub fn heading(&self, target: &Point, length: i32) -> (r: Point)
        requires
            length >= 0,
        ensures
            r@ == heading(self@, target@, length as int),
            r@.within(length as int),
    {
        let dx: i64 = target.x as i64 - self.x as i64;
        let dy: i64 = target.y as i64 - self.y as i64;
        proof {
            lemma_heading_bound(self@, target@, length as int);
        }
        if dx == 0 && dy == 0 {
            Point { y: 0, x: 0 }
        } else {
            let ghost d = target@.minus(self@);
            proof {
                lemma_floor_sqrt_dominates(d);
                assert(target@.dist2(self@) == d.norm2());
            }
            let m: u128 = target.distance2_wide(self);
            let n: u64 = isqrt(m);
            proof {
                lemma_floor_sqrt_exists(m as int);
                if n > 0x1_ffff_ffff {
                    lemma_square_monotonic(0x2_0000_0000, n as int);
                }
            }
            Point { x: scale_coordinate(dx, length, n), y: scale_coordinate(dy, length, n) }
        }
    }

    /// The displacement of one move from here toward `target` at `speed`.
    pub fn step_toward(&self, target: &Point, speed: i32) -> (r: Point)
        requires
            speed >= 0,
        ensures
            r@ == step_toward(self@, target@, speed as int),
            r@.within(speed as int),
    {
        proof {
            lemma_step_toward_bound(self@, target@, speed as int);
        }
        if self.in_range(target, speed) {
            Point {
                x: (target.x as i64 - self.x as i64) as i32,
                y: (target.y as i64 - self.y as i64) as i32,
            }
        } else {
            self.heading(target, speed)
        }
    }
}

/// `n`, or `i32::MAX` where `n` is larger.
pub open spec fn clip(n: int) -> int {
    if n > i32::MAX {
        i32::MAX as int
    } else {
        n
    }
}

} // verus!
