use ray_tracer::pattern::{checkers_selects_a, ring_selects_a, stripe_selects_a};
use ray_tracer::shapes::{Axis, Cube};

/// The floor of a pattern-space coordinate, as the host renderer takes it.
fn floor_of(x: f64) -> i64 {
    x.floor() as i64
}

#[test]
fn stripes_alternate_in_x() {
    // A stripe pattern is constant within [0,1), flips at 1, and counts on
    // into the negatives.
    assert!(stripe_selects_a(floor_of(0.0)));
    assert!(stripe_selects_a(floor_of(0.9)));
    assert!(!stripe_selects_a(floor_of(1.0)));
    assert!(!stripe_selects_a(floor_of(-0.1)));
    assert!(!stripe_selects_a(floor_of(-1.0)));
    assert!(stripe_selects_a(floor_of(-1.1)));
}

#[test]
fn rings_alternate_with_radius() {
    assert!(ring_selects_a(floor_of(0.0)));
    assert!(!ring_selects_a(floor_of(1.0)));
    assert!(!ring_selects_a(floor_of((2.0_f64).sqrt())));
    assert!(ring_selects_a(floor_of(2.5)));
}

#[test]
fn checkers_repeat_in_each_dimension() {
    assert!(checkers_selects_a(floor_of(0.0), floor_of(0.0), floor_of(0.0)));
    assert!(!checkers_selects_a(floor_of(0.99), floor_of(1.01), floor_of(0.0)));
    assert!(!checkers_selects_a(floor_of(0.0), floor_of(0.0), floor_of(-0.1)));
    assert!(checkers_selects_a(floor_of(-1.0), floor_of(1.0), floor_of(0.0)));
}

/// Order key of a coordinate's magnitude, as the host computes it for the
/// cube's face choice.
fn mag_key(x: f64) -> u64 {
    x.abs().to_bits()
}

#[test]
fn cube_face_is_the_dominant_axis() {
    assert_eq!(Cube::dominant_axis(mag_key(1.0), mag_key(0.5), mag_key(-0.8)), Axis::X);
    assert_eq!(Cube::dominant_axis(mag_key(-0.4), mag_key(1.0), mag_key(-0.1)), Axis::Y);
    assert_eq!(Cube::dominant_axis(mag_key(-0.6), mag_key(0.3), mag_key(1.0)), Axis::Z);
    // Ties prefer x, then y, as corners belong to the x face.
    assert_eq!(Cube::dominant_axis(mag_key(1.0), mag_key(1.0), mag_key(1.0)), Axis::X);
    assert_eq!(Cube::dominant_axis(mag_key(0.2), mag_key(1.0), mag_key(1.0)), Axis::Y);
}
