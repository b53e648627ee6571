use museum::collide::{collides_with, resolve_position, LineCollider, TOLERANCE};
use museum::fixed::{clamp_i64, div_tz, isqrt};
use museum::vec2::Vec2;

fn v2(x: i64, z: i64) -> Vec2 {
    Vec2 { x, z }
}

#[test]
fn isqrt_exact_and_rounded_values() {
    assert_eq!(isqrt(0), 0);
    assert_eq!(isqrt(1), 1);
    assert_eq!(isqrt(3), 1);
    assert_eq!(isqrt(4), 2);
    assert_eq!(isqrt(99), 9);
    assert_eq!(isqrt(100_000_000), 10_000);
    assert_eq!(isqrt(u128::MAX), u64::MAX);
}

#[test]
fn div_tz_truncates_toward_zero() {
    assert_eq!(div_tz(7, 2), 3);
    assert_eq!(div_tz(-7, 2), -3);
    assert_eq!(div_tz(6, 3), 2);
    assert_eq!(div_tz(-6, 3), -2);
    assert_eq!(div_tz(0, 5), 0);
}

#[test]
fn clamp_respects_the_box() {
    assert_eq!(clamp_i64(5, 10), 5);
    assert_eq!(clamp_i64(15, 10), 10);
    assert_eq!(clamp_i64(-15, 10), -10);
}

#[test]
fn point_near_segment_middle_collides() {
    // Segment (0,0)-(10,0), query point (5, 0.1), player radius 0.32: the
    // closest point (5,0) is exactly on the segment and the perpendicular
    // distance 0.1 is within the radius.
    assert_eq!(TOLERANCE, 500);
    let seg = LineCollider::new(v2(0, 0), v2(10_000, 0));
    assert!(collides_with(&seg, v2(5_000, 100), 320));
}

#[test]
fn point_far_past_endpoint_never_pushed() {
    // The closest point on the infinite line lies far outside the segment:
    // even a point almost on the line is not classified and not moved.
    let seg = LineCollider::new(v2(0, 0), v2(10_000, 0));
    let q = v2(20_000, 10);
    assert!(!collides_with(&seg, q, 320));
    let segs = vec![seg];
    assert_eq!(resolve_position(&segs, q, 100, 320), q);
}

#[test]
fn slight_overshoot_within_tolerance_still_collides() {
    // 0.1 world units past the endpoint: the sum of distances exceeds the
    // length by 0.2, within the 0.5 tolerance.
    let seg = LineCollider::new(v2(0, 0), v2(10_000, 0));
    assert!(collides_with(&seg, v2(10_100, 50), 320));
    // 0.3 past the endpoint exceeds the slack (0.6 > 0.5).
    assert!(!collides_with(&seg, v2(10_300, 50), 320));
}

#[test]
fn push_back_moves_away_by_the_step() {
    // The query point sits 0.1 above the segment; the push-back direction is
    // straight up, by exactly the movement step.
    let seg = LineCollider::new(v2(0, 0), v2(10_000, 0));
    let segs = vec![seg];
    let out = resolve_position(&segs, v2(5_000, 100), 50, 320);
    assert_eq!(out, v2(5_000, 150));
}

#[test]
fn non_colliding_point_is_left_exactly_in_place() {
    let segs = vec![
        LineCollider::new(v2(0, 0), v2(10_000, 0)),
        LineCollider::new(v2(0, 0), v2(0, 10_000)),
    ];
    let q = v2(5_000, 5_000);
    assert_eq!(resolve_position(&segs, q, 100, 320), q);
}

#[test]
fn segments_resolve_in_order() {
    // The point collides with both axes' walls at the corner; each segment
    // pushes in turn, reading the position the previous one left.
    let segs = vec![
        LineCollider::new(v2(0, 0), v2(10_000, 0)),
        LineCollider::new(v2(0, 0), v2(0, 10_000)),
    ];
    let out = resolve_position(&segs, v2(200, 100), 60, 320);
    // First wall (the x axis) pushes up; the second (the z axis) pushes right.
    assert_eq!(out, v2(260, 160));
}
