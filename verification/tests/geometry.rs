use bomber_defence::fixed::unit_part;
use bomber_defence::geom::{
    circle_overlaps_rectangle, circles_overlap, unit_vector, Circle, Rectangle, Vector,
};

fn v(x: i32, y: i32) -> Vector {
    Vector { x, y }
}

#[test]
fn unit_part_is_the_share_rounded_toward_zero() {
    assert_eq!(unit_part(3, 25), 600);
    assert_eq!(unit_part(4, 25), 800);
    assert_eq!(unit_part(5, 25), 1_000);
    assert_eq!(unit_part(0, 25), 0);
    assert_eq!(unit_part(1, 2), 707);
    assert_eq!(unit_part(1, 5), 447);
    assert_eq!(unit_part(2, 5), 894);
    assert_eq!(unit_part(1, 1_000_001), 0);
    assert_eq!(unit_part(1, 1_000_000), 1);
    assert_eq!(unit_part(1_000, 1_000_001), 999);
}

#[test]
fn unit_part_of_the_largest_numbers() {
    assert_eq!(unit_part(3_000_000_000, 18_000_000_000_000_000_000), 707);
    assert_eq!(unit_part(4_294_967_295, 4_294_967_295 * 4_294_967_295), 1_000);
    assert_eq!(unit_part(4_294_967_295, u64::MAX), 999);
    assert_eq!(unit_part(0, u64::MAX), 0);
    assert_eq!(unit_part(1, u64::MAX), 0);
}

#[test]
fn vector_new_sets_components() {
    assert_eq!(Vector::new(3, -4), v(3, -4));
}

#[test]
fn squared_length() {
    assert_eq!(v(3, 4).len2(), 25);
    assert_eq!(v(-3, 4).len2(), 25);
    assert_eq!(v(0, 0).len2(), 0);
    assert_eq!(v(i32::MIN, i32::MIN).len2(), 9_223_372_036_854_775_808);
}

#[test]
fn plus_adds_components() {
    assert_eq!(v(1, 2).plus(v(10, -20)), v(11, -18));
}

#[test]
fn times_rounds_toward_zero() {
    assert_eq!(v(333, -666).times(2_000), v(666, -1_332));
    assert_eq!(v(1, -1).times(1_500), v(1, -1));
    assert_eq!(v(1, -1).times(999), v(0, 0));
    assert_eq!(v(600, 800).times(10_000), v(6_000, 8_000));
    assert_eq!(v(7, -7).times(-500), v(-3, 3));
}

#[test]
fn unit_vector_of_exact_length() {
    assert_eq!(unit_vector(3, 4), v(600, 800));
    assert_eq!(unit_vector(-3, 4), v(-600, 800));
    assert_eq!(unit_vector(3, -4), v(600, -800));
    assert_eq!(unit_vector(0, 7), v(0, 1_000));
    assert_eq!(unit_vector(-7, 0), v(-1_000, 0));
}

#[test]
fn unit_vector_of_short_vectors() {
    assert_eq!(unit_vector(1, 1), v(707, 707));
    assert_eq!(unit_vector(1, -1), v(707, -707));
    assert_eq!(unit_vector(1, 2), v(447, 894));
    assert_eq!(unit_vector(-1, -2), v(-447, -894));
    assert_eq!(unit_vector(1, 1_000), v(0, 999));
    assert_eq!(unit_vector(-5, 2), v(-928, 371));
}

#[test]
fn unit_vector_has_length_one_up_to_rounding() {
    for dx in -40i64..40 {
        for dy in -40i64..40 {
            let u = unit_vector(dx * 37, dy * 91);
            assert!(u.len2() <= 1_000_000);
            if dx != 0 || dy != 0 {
                assert!(u.len2() >= 996_004);
            }
            assert!((dx >= 0 || u.x <= 0) && (dx <= 0 || u.x >= 0));
            assert!((dy >= 0 || u.y <= 0) && (dy <= 0 || u.y >= 0));
        }
    }
}

#[test]
fn unit_vector_depends_on_the_direction_only() {
    for (dx, dy) in [(1i64, 1i64), (1, 2), (-5, 2), (3, -4), (0, 7), (-1, 0), (123, 457)] {
        let u = unit_vector(dx, dy);
        for k in [2i64, 3, 10, 1_000, 999_983] {
            assert_eq!(unit_vector(k * dx, k * dy), u);
        }
    }
}

#[test]
fn unit_vector_of_zero_is_zero() {
    assert_eq!(unit_vector(0, 0), v(0, 0));
    assert_eq!(v(0, 0).normalize(), v(0, 0));
}

#[test]
fn unit_vector_at_the_end_of_its_range() {
    assert_eq!(unit_vector(3_000_000_000, 3_000_000_000), v(707, 707));
    assert_eq!(unit_vector(-3_000_000_000, 3_000_000_000), v(-707, 707));
}

#[test]
fn normalize_works_on_every_vector() {
    assert_eq!(v(30, 40).normalize(), v(600, 800));
    assert_eq!(v(i32::MIN, 0).normalize(), v(-1_000, 0));
    assert_eq!(v(i32::MAX, i32::MAX).normalize(), v(707, 707));
}

#[test]
fn rectangle_contains_left_and_upper_edge_only() {
    let r = Rectangle { pos: v(10, 20), size: v(30, 40) };
    assert!(r.contains(v(10, 20)));
    assert!(r.contains(v(39, 59)));
    assert!(!r.contains(v(40, 30)));
    assert!(!r.contains(v(20, 60)));
    assert!(!r.contains(v(9, 30)));
    assert!(!r.contains(v(20, 19)));
}

#[test]
fn rectangle_contains_does_not_overflow() {
    let r = Rectangle { pos: v(i32::MAX, i32::MAX), size: v(i32::MAX, i32::MAX) };
    assert!(r.contains(v(i32::MAX, i32::MAX)));
    let empty = Rectangle { pos: v(0, 0), size: v(-1, -1) };
    assert!(!empty.contains(v(0, 0)));
}

#[test]
fn circles_overlap_when_closer_than_the_radii() {
    let a = Circle { pos: v(0, 0), radius: 10 };
    assert!(circles_overlap(&a, &Circle { pos: v(15, 0), radius: 6 }));
    assert!(!circles_overlap(&a, &Circle { pos: v(16, 0), radius: 6 }));
    assert!(!circles_overlap(&a, &Circle { pos: v(17, 0), radius: 6 }));
    assert!(circles_overlap(&a, &Circle { pos: v(9, 12), radius: 6 }));
    assert!(!circles_overlap(&a, &Circle { pos: v(9, 12), radius: 5 }));
}

#[test]
fn circles_without_extent_overlap_nothing() {
    let point = Circle { pos: v(0, 0), radius: 0 };
    assert!(!circles_overlap(&point, &point));
    assert!(circles_overlap(&point, &Circle { pos: v(0, 0), radius: 1 }));
    let inverse = Circle { pos: v(0, 0), radius: -5 };
    assert!(!circles_overlap(&inverse, &Circle { pos: v(0, 0), radius: 3 }));
}

#[test]
fn circles_far_apart_do_not_overflow() {
    let a = Circle { pos: v(i32::MIN, i32::MIN), radius: i32::MAX };
    let b = Circle { pos: v(i32::MAX, i32::MAX), radius: i32::MAX };
    assert!(!circles_overlap(&a, &b));
    let c = Circle { pos: v(i32::MIN, 0), radius: i32::MAX };
    let d = Circle { pos: v(i32::MAX, 0), radius: i32::MAX };
    assert!(!circles_overlap(&c, &d));
    let e = Circle { pos: v(i32::MIN + 2, 0), radius: i32::MAX };
    assert!(circles_overlap(&e, &d));
}

#[test]
fn circle_overlaps_rectangle_by_closest_point() {
    let r = Rectangle { pos: v(10, -5), size: v(10, 10) };
    assert!(!circle_overlaps_rectangle(&Circle { pos: v(0, 0), radius: 10 }, &r));
    assert!(circle_overlaps_rectangle(&Circle { pos: v(0, 0), radius: 11 }, &r));
    // the closest point is the corner (10, 5)
    assert!(!circle_overlaps_rectangle(&Circle { pos: v(7, 9), radius: 5 }, &r));
    assert!(circle_overlaps_rectangle(&Circle { pos: v(7, 9), radius: 6 }, &r));
    // the centre lies inside
    assert!(circle_overlaps_rectangle(&Circle { pos: v(15, 0), radius: 1 }, &r));
    assert!(!circle_overlaps_rectangle(&Circle { pos: v(15, 0), radius: 0 }, &r));
}

#[test]
fn circle_and_rectangle_far_apart_do_not_overflow() {
    let r = Rectangle { pos: v(i32::MAX, i32::MAX), size: v(i32::MAX, i32::MAX) };
    assert!(!circle_overlaps_rectangle(&Circle { pos: v(i32::MIN, i32::MIN), radius: i32::MAX }, &r));
    let crossed = Rectangle { pos: v(0, 0), size: v(i32::MIN, i32::MIN) };
    assert!(!circle_overlaps_rectangle(&Circle { pos: v(i32::MAX, i32::MAX), radius: 1 }, &crossed));
}
