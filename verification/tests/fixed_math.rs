//! Exact-value checks of the fixed-point scalar and vector layer.

use raytrace::fixed::{Fx, LIM, SCALE};
use raytrace::vec3::Vec3;

#[test]
fn thousandths_are_truncated_exactly() {
    assert_eq!(Fx::from_thousandths(500).bits, 32768);
    assert_eq!(Fx::from_thousandths(250).bits, 16384);
    assert_eq!(Fx::from_thousandths(700).bits, 45875);
    assert_eq!(Fx::from_thousandths(-450).bits, -29491);
}

#[test]
fn whole_numbers_round_trip() {
    assert_eq!(Fx::from_int(3).bits, 3 * SCALE);
    assert_eq!(Fx::from_int(-7).bits, -7 * SCALE);
    assert_eq!(Fx::zero().bits, 0);
    assert_eq!(Fx::one().bits, SCALE);
}

#[test]
fn out_of_band_values_saturate() {
    assert_eq!(Fx::from_int(100000).bits, LIM);
    assert_eq!(Fx::from_int(-100000).bits, -LIM);
    let big = Fx::from_int(4000);
    assert_eq!(big.mul(big).bits, LIM);
}

#[test]
fn division_by_zero_saturates_like_infinity() {
    assert_eq!(Fx::one().div(Fx::zero()).bits, LIM);
    assert_eq!(Fx::from_int(-2).div(Fx::zero()).bits, -LIM);
    assert_eq!(Fx::zero().div(Fx::zero()).bits, 0);
}

#[test]
fn products_quotients_and_roots_are_exact_on_exact_inputs() {
    let three_halves = Fx::from_thousandths(1500);
    assert_eq!(three_halves.mul(Fx::from_int(2)), Fx::from_int(3));
    assert_eq!(Fx::from_int(7).div(Fx::from_int(2)), Fx::from_thousandths(3500));
    assert_eq!(Fx::from_int(4).sqrt(), Fx::from_int(2));
    assert_eq!(Fx::from_int(9).sqrt(), Fx::from_int(3));
    assert_eq!(Fx::from_int(-1).sqrt(), Fx::zero());
}

#[test]
fn vector_algebra_matches_hand_results() {
    let u = Vec3::new(Fx::from_int(1), Fx::from_int(2), Fx::from_int(3));
    let v = Vec3::new(Fx::from_int(4), Fx::from_int(-5), Fx::from_int(6));
    assert_eq!(u.dot(&v), Fx::from_int(4 - 10 + 18));
    let w = u.cross(&v);
    assert_eq!(w.x, Fx::from_int(27));
    assert_eq!(w.y, Fx::from_int(6));
    assert_eq!(w.z, Fx::from_int(-13));
    assert_eq!(u.vadd(v).x, Fx::from_int(5));
    assert_eq!(u.vsub(v).y, Fx::from_int(7));
    assert_eq!(u.scale(Fx::from_int(2)).z, Fx::from_int(6));
}

#[test]
fn normalize_gives_unit_axis_vectors() {
    // a power-of-two length, so the reciprocal is exact in fixed point
    let v = Vec3::new(Fx::zero(), Fx::from_int(4), Fx::zero());
    let n = v.normalize();
    assert_eq!(n.x, Fx::zero());
    assert_eq!(n.y, Fx::one());
    assert_eq!(n.z, Fx::zero());
    // truncation may lose a single unit on other lengths
    let w = Vec3::new(Fx::zero(), Fx::from_int(5), Fx::zero());
    assert_eq!(w.normalize().y.bits, 65535);
}

#[test]
fn reflection_through_a_normal_mirrors_the_ray() {
    let v = Vec3::new(Fx::one(), Fx::from_int(-1), Fx::zero());
    let n = Vec3::new(Fx::zero(), Fx::one(), Fx::zero());
    let r = v.reflect_through(&n);
    assert_eq!(r.x, Fx::one());
    assert_eq!(r.y, Fx::one());
    assert_eq!(r.z, Fx::zero());
}
