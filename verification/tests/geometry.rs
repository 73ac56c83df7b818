use simulator::line::Line;
use simulator::point::{isqrt, Point};

fn pt(x: i32, y: i32) -> Point {
    Point { x, y }
}

#[test]
fn test_intersect() {
    let l1 = Line { p1: Point { x: 150, y: 200 }, p2: Point { x: -150, y: 120 } };
    let l2 = Line { p1: Point { x: 0, y: 0 }, p2: Point { x: 0, y: 5000 } };

    if let Some(p) = l1.intersect(&l2) {
        let y = p.y as f64 / p.d as f64;
        assert!((y - 160.0).abs() <= 1e-5);
    } else {
        assert!(false);
    }
}

#[test]
fn intersect_gives_exact_fractions() {
    let l1 = Line { p1: pt(150, 200), p2: pt(-150, 120) };
    let l2 = Line { p1: pt(0, 0), p2: pt(0, 5000) };
    let c = l1.intersect(&l2).unwrap();
    assert_eq!(c.d, -1_500_000);
    assert_eq!(c.x, 0);
    assert_eq!(c.y, -240_000_000);
}

#[test]
fn parallel_lines_do_not_intersect() {
    let l1 = Line { p1: pt(0, 0), p2: pt(10, 10) };
    let l2 = Line { p1: pt(0, 5), p2: pt(10, 15) };
    assert!(l1.intersect(&l2).is_none());
    // the same line twice
    assert!(l1.intersect(&l1).is_none());
    // a segment without length has no direction
    let dot = Line { p1: pt(3, 3), p2: pt(3, 3) };
    assert!(l1.intersect(&dot).is_none());
}

#[test]
fn intersect_rejects_a_crossing_outside_the_x_range() {
    // the lines cross at (20, 20); no end point has an x above 10
    let l1 = Line { p1: pt(0, 0), p2: pt(10, 10) };
    let l2 = Line { p1: pt(0, 40), p2: pt(10, 30) };
    assert!(l1.intersect(&l2).is_none());
}

#[test]
fn intersect_asks_nothing_of_y() {
    // the lines cross at (5, 100), far above both segments, yet inside the x range
    let l1 = Line { p1: pt(5, 0), p2: pt(5, 1) };
    let l2 = Line { p1: pt(0, 100), p2: pt(10, 100) };
    let c = l1.intersect(&l2).unwrap();
    assert_eq!(c.x / c.d, 5);
    assert_eq!(c.y / c.d, 100);
}

#[test]
fn intersect_takes_extreme_coordinates() {
    let l1 = Line { p1: pt(i32::MIN, i32::MIN), p2: pt(i32::MAX, i32::MAX) };
    let l2 = Line { p1: pt(i32::MIN, i32::MAX), p2: pt(i32::MAX, i32::MIN) };
    let c = l1.intersect(&l2).unwrap();
    // they cross at (-1/2, -1/2)
    assert_eq!(2 * c.x, -c.d);
    assert_eq!(2 * c.y, -c.d);
}

#[test]
fn line_min_and_max_are_the_corners() {
    let l = Line { p1: pt(3, -7), p2: pt(-2, 9) };
    assert_eq!(l.min(), pt(-2, -7));
    assert_eq!(l.max(), pt(3, 9));
}

#[test]
fn isqrt_rounds_down() {
    assert_eq!(isqrt(0), 0);
    assert_eq!(isqrt(1), 1);
    assert_eq!(isqrt(2), 1);
    assert_eq!(isqrt(3), 1);
    assert_eq!(isqrt(4), 2);
    assert_eq!(isqrt(24), 4);
    assert_eq!(isqrt(25), 5);
    assert_eq!(isqrt(20000), 141);
    assert_eq!(isqrt(1u128 << 64), 1u64 << 32);
    assert_eq!(isqrt((1u128 << 64) - 1), (1u64 << 32) - 1);
    assert_eq!(isqrt((1u128 << 66) - 1), (1u64 << 33) - 1);
    assert_eq!(isqrt(u128::MAX), u64::MAX);
    assert_eq!(isqrt((u64::MAX as u128) * (u64::MAX as u128)), u64::MAX);
    assert_eq!(isqrt((u64::MAX as u128) * (u64::MAX as u128) - 1), u64::MAX - 1);
}

#[test]
fn isqrt_brackets_its_argument() {
    let mut m: u128 = 1;
    for _ in 0..200 {
        let r = isqrt(m) as u128;
        assert!(r * r <= m && m < (r + 1) * (r + 1));
        if m >= (1u128 << 126) {
            break;
        }
        m = m * 3 / 2 + 7;
    }
}

#[test]
fn point_arithmetic() {
    assert_eq!(Point::new(), pt(0, 0));
    assert_eq!(pt(1, 2).add(pt(10, -20)), pt(11, -18));
    assert_eq!(pt(1, 2).sub(pt(10, -20)), pt(-9, 22));
    assert_eq!(pt(3, -4).mul(-5), pt(-15, 20));
    assert_eq!(pt(7, -7).div(2), pt(3, -3));
    assert_eq!(pt(7, -7).div(-2), pt(-3, 3));
    assert_eq!(pt(-9, 9).div(-1), pt(9, -9));
    assert_eq!(pt(3, -4).flip(), pt(-3, 4));
    assert_eq!(pt(3, -4).min(&pt(-1, 5)), pt(-1, -4));
    assert_eq!(pt(3, -4).max(&pt(-1, 5)), pt(3, 5));
    assert_eq!(pt(3, 4).cross(&pt(5, 6)), 3 * 6 - 4 * 5);
}

#[test]
fn distances_round_down() {
    assert_eq!(pt(0, 0).distance2(&pt(3, 4)), 25);
    assert_eq!(pt(0, 0).distance(&pt(3, 4)), 5);
    assert_eq!(pt(0, 0).distance(&pt(100, 100)), 141);
    assert_eq!(pt(-1, -1).distance(&pt(0, 0)), 1);
    assert_eq!(pt(10, 10).norm2(), 200);
    assert_eq!(pt(10, 10).norm(), 14);
    assert_eq!(pt(0, 0).norm(), 0);
}

#[test]
fn distance_stops_at_the_largest_number() {
    assert_eq!(pt(i32::MIN, i32::MIN).distance(&pt(i32::MAX, i32::MAX)), i32::MAX);
    assert_eq!(pt(i32::MIN, 0).distance(&pt(i32::MAX, 0)), i32::MAX);
    assert_eq!(pt(0, 0).distance(&pt(i32::MAX, 0)), i32::MAX);
    assert_eq!(pt(0, 0).distance(&pt(i32::MAX - 1, 0)), i32::MAX - 1);
}

#[test]
fn in_range_counts_the_border() {
    let o = pt(0, 0);
    assert!(o.in_range(&pt(3, 4), 5));
    assert!(!o.in_range(&pt(3, 4), 4));
    assert!(o.in_range(&pt(800, 0), 800));
    assert!(!o.in_range(&pt(800, 1), 800));
    assert!(o.in_range(&pt(0, 0), 0));
    // far apart: no overflow
    assert!(!pt(i32::MIN, i32::MIN).in_range(&pt(i32::MAX, i32::MAX), i32::MAX));
    assert!(pt(i32::MAX, i32::MAX).in_range(&pt(i32::MAX, i32::MAX - 3), 3));
}

#[test]
fn in_range_wide_takes_points_beyond_the_machine_range() {
    let o = pt(i32::MAX, 0);
    assert!(o.in_range_wide(i32::MAX as i64 + 100, 0, 100));
    assert!(!o.in_range_wide(i32::MAX as i64 + 101, 0, 100));
    assert!(pt(0, 0).in_range_wide(3, 4, 5));
    assert!(!pt(0, 0).in_range_wide(1 << 33, -(1 << 33), i32::MAX));
}

#[test]
fn point_symmetry_reflects_through_the_center() {
    let center = pt(8815, 4500);
    assert_eq!(pt(0, 0).point_symmetry(&center), pt(17630, 9000));
    assert_eq!(pt(8815, -799).point_symmetry(&center), pt(8815, 9799));
    assert_eq!(pt(12815, -799).point_symmetry(&center), pt(4815, 9799));
    let p = pt(123, -456);
    assert_eq!(p.point_symmetry(&center).point_symmetry(&center), p);
}

#[test]
fn normalize_divides_by_the_rounded_length() {
    assert_eq!(pt(10, 0).normalize(), pt(1, 0));
    assert_eq!(pt(0, -10).normalize(), pt(0, -1));
    assert_eq!(pt(3, 4).normalize(), pt(0, 0));
    assert_eq!(pt(1, 1).normalize(), pt(1, 1));
    assert_eq!(pt(-1, 1).normalize(), pt(-1, 1));
}

#[test]
fn heading_has_the_given_length() {
    let o = pt(0, 0);
    assert_eq!(o.heading(&pt(3000, 4000), 800), pt(480, 640));
    assert_eq!(o.heading(&pt(-3000, 4000), 400), pt(-240, 320));
    assert_eq!(pt(5, 5).heading(&pt(6, 5), 2200), pt(2200, 0));
    assert_eq!(o.heading(&pt(0, -9), 2200), pt(0, -2200));
    // the distance is rounded down before the division
    assert_eq!(o.heading(&pt(100, 100), 800), pt(567, 567));
    assert_eq!(o.heading(&pt(1, 1), 400), pt(400, 400));
    assert_eq!(o.heading(&pt(1000, 1), 800), pt(800, 1));
    // no direction
    assert_eq!(pt(7, 7).heading(&pt(7, 7), 2200), pt(0, 0));
    assert_eq!(o.heading(&pt(5, 5), 0), pt(0, 0));
}

#[test]
fn heading_rounds_halves_away_from_zero() {
    // 1 * 800 / 1600 is one half
    assert_eq!(pt(0, 0).heading(&pt(1, 1600), 800), pt(1, 800));
    assert_eq!(pt(0, 0).heading(&pt(-1, 1600), 800), pt(-1, 800));
    assert_eq!(pt(0, 0).heading(&pt(1, -1600), 800), pt(1, -800));
}

#[test]
fn heading_takes_extreme_coordinates() {
    let v = pt(i32::MIN, i32::MIN).heading(&pt(i32::MAX, i32::MAX), 400);
    assert_eq!(v, pt(283, 283));
    let v = pt(i32::MAX, 0).heading(&pt(i32::MIN, 0), i32::MAX);
    assert_eq!(v, pt(-i32::MAX, 0));
}

#[test]
fn step_toward_stops_at_a_target_within_reach() {
    let o = pt(0, 0);
    assert_eq!(o.step_toward(&pt(100, 100), 800), pt(100, 100));
    assert_eq!(o.step_toward(&pt(800, 0), 800), pt(800, 0));
    assert_eq!(o.step_toward(&pt(-480, -640), 800), pt(-480, -640));
    assert_eq!(o.step_toward(&pt(0, 0), 800), pt(0, 0));
    // just out of reach
    assert_eq!(o.step_toward(&pt(800, 1), 800), pt(800, 1));
    assert_eq!(o.step_toward(&pt(3000, 4000), 800), pt(480, 640));
    assert_eq!(pt(1000, 1000).step_toward(&pt(1000, 5000), 400), pt(0, 400));
}
