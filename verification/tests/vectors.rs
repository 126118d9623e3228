use pathtracer::fixed::{Fixed, MAX_RAW, ONE_RAW};
use pathtracer::vec::{Color, Vec3};

fn fx(x: f64) -> Fixed {
    Fixed::from_raw((x * 4294967296.0).round() as i64)
}

fn v(x: f64, y: f64, z: f64) -> Vec3 {
    Vec3::new(fx(x), fx(y), fx(z))
}

fn raw(a: Vec3) -> (i64, i64, i64) {
    (a.x().to_raw(), a.y().to_raw(), a.z().to_raw())
}

#[test]
fn components_are_read_back() {
    let a = v(1.0, -2.0, 3.5);
    assert_eq!(raw(a), (ONE_RAW, -2 * ONE_RAW, 7 * ONE_RAW / 2));
    assert_eq!(a.index(0).to_raw(), a.x().to_raw());
    assert_eq!(a.index(1).to_raw(), a.y().to_raw());
    assert_eq!(a.index(2).to_raw(), a.z().to_raw());
    assert_eq!(raw(Vec3::zero()), (0, 0, 0));
}

#[test]
fn components_are_written_through_index_mut() {
    let mut a = v(1.0, 2.0, 3.0);
    *a.index_mut(1) = fx(5.0);
    assert_eq!(raw(a), raw(v(1.0, 5.0, 3.0)));
    *a.index_mut(0) = fx(-1.0);
    *a.index_mut(2) = fx(0.5);
    assert_eq!(raw(a), raw(v(-1.0, 5.0, 0.5)));
    assert_eq!(a.index_mut(2).to_raw(), fx(0.5).to_raw());
}

#[test]
fn arithmetic_is_component_wise() {
    let a = v(1.0, 2.0, 3.0);
    let b = v(0.5, -1.0, 4.0);
    assert_eq!(raw(a.add(b)), raw(v(1.5, 1.0, 7.0)));
    assert_eq!(raw(a.sub(b)), raw(v(0.5, 3.0, -1.0)));
    assert_eq!(raw(a.neg()), raw(v(-1.0, -2.0, -3.0)));
    assert_eq!(raw(a.mul(b)), raw(v(0.5, -2.0, 12.0)));
    assert_eq!(raw(a.scale(fx(2.5))), raw(v(2.5, 5.0, 7.5)));
    assert_eq!(raw(a.div(fx(2.0))), raw(v(0.5, 1.0, 1.5)));
}

#[test]
fn assignments_update_in_place() {
    let mut a = v(1.0, 2.0, 3.0);
    a.add_assign(v(1.0, 1.0, 1.0));
    assert_eq!(raw(a), raw(v(2.0, 3.0, 4.0)));
    a.sub_assign(v(0.5, 0.5, 0.5));
    assert_eq!(raw(a), raw(v(1.5, 2.5, 3.5)));
    a.mul_assign(fx(2.0));
    assert_eq!(raw(a), raw(v(3.0, 5.0, 7.0)));
    a.div_assign(fx(4.0));
    assert_eq!(raw(a), raw(v(0.75, 1.25, 1.75)));
}

#[test]
fn dot_and_cross_products() {
    let a = v(1.0, 2.0, 3.0);
    let b = v(4.0, 5.0, 6.0);
    assert_eq!(a.dot(&b).to_raw(), 32 * ONE_RAW);
    assert_eq!(raw(a.cross(&b)), raw(v(-3.0, 6.0, -3.0)));
    assert_eq!(raw(v(1.0, 0.0, 0.0).cross(&v(0.0, 1.0, 0.0))), raw(v(0.0, 0.0, 1.0)));
    assert_eq!(a.dot(&b.neg()).to_raw(), -32 * ONE_RAW);
}

#[test]
fn length_is_exact_for_whole_triples() {
    assert_eq!(v(3.0, 4.0, 0.0).length().to_raw(), 5 * ONE_RAW);
    assert_eq!(v(1.0, 2.0, 2.0).length().to_raw(), 3 * ONE_RAW);
    assert_eq!(v(0.0, 0.0, 0.0).length().to_raw(), 0);
    assert_eq!(Vec3::new(Fixed::from_raw(1), Fixed::from_raw(0), Fixed::from_raw(0)).length().to_raw(), 1);
}

#[test]
fn length_saturates() {
    let max = Fixed::from_raw(MAX_RAW);
    assert_eq!(Vec3::new(max, max, max).length().to_raw(), MAX_RAW);
}

#[test]
fn normalized_has_length_one() {
    for a in [v(3.0, 4.0, 0.0), v(1.0, 2.0, 2.0), v(-0.3, 0.01, 12.5), v(1e-4, 0.0, -1e-4), v(1000.0, -2000.0, 3000.0)] {
        let n = a.normalized();
        let len = n.length().to_raw();
        assert!((len - ONE_RAW).abs() <= 5 + ONE_RAW / a.length().to_raw());
    }
    assert_eq!(raw(v(3.0, 4.0, 0.0).normalized()), (2_576_980_377, 3_435_973_836, 0));
    assert_eq!(raw(v(1.0, 2.0, 2.0).normalized()), (1_431_655_765, 2_863_311_530, 2_863_311_530));
}

#[test]
fn normalized_zero_vector_is_zero() {
    assert_eq!(raw(Vec3::zero().normalized()), (0, 0, 0));
}

#[test]
fn near_zero_is_below_a_hundred_millionth() {
    let at = |r: i64| Vec3::new(Fixed::from_raw(r), Fixed::from_raw(-r), Fixed::from_raw(0));
    assert!(at(0).near_zero());
    assert!(at(42).near_zero());
    assert!(!at(43).near_zero());
    assert!(!Vec3::new(Fixed::from_raw(0), Fixed::from_raw(0), Fixed::from_raw(43)).near_zero());
    assert!(!v(1.0, 0.0, 0.0).near_zero());
}

#[test]
fn reflection_flips_the_normal_component() {
    let a = v(1.0, -1.0, 0.0);
    let n = v(0.0, 1.0, 0.0);
    let r = a.refect(&n);
    assert_eq!(raw(r), raw(v(1.0, 1.0, 0.0)));
    assert_eq!(r.dot(&n).to_raw(), -a.dot(&n).to_raw());
    let b = v(0.25, -3.0, 7.5);
    let m = v(0.0, 0.0, -1.0);
    assert_eq!(b.refect(&m).dot(&m).to_raw(), -b.dot(&m).to_raw());
    assert_eq!(raw(b.refect(&m)), raw(v(0.25, -3.0, -7.5)));
}

#[test]
fn reflection_nearly_flips_for_normals_of_length_nearly_one() {
    let normals = [v(1.0, 2.0, 2.0).normalized(), v(-0.3, 0.9, 0.1).normalized(), v(0.0, -1.0, 1.0).normalized()];
    let vectors = [v(1.0, -1.0, 0.0), v(0.25, -3.0, 7.5), v(-120.0, 33.5, 0.001), v(0.0, 0.0, 0.0)];
    for n in normals {
        assert!((n.length().to_raw() - ONE_RAW).abs() <= 5);
        for a in vectors {
            let d = a.dot(&n).to_raw();
            let e = a.refect(&n).dot(&n).to_raw();
            assert!((e + d).abs() <= 8 + d.abs() / (1 << 27));
        }
    }
}

#[test]
fn unit_ball_holds_what_is_shorter_than_one() {
    assert!(v(0.0, 0.0, 0.0).is_in_unit_ball());
    assert!(v(0.5, 0.5, 0.5).is_in_unit_ball());
    assert!(v(0.6, -0.6, 0.5).is_in_unit_ball());
    assert!(!v(1.0, 0.0, 0.0).is_in_unit_ball());
    assert!(!v(0.6, 0.6, 0.6).is_in_unit_ball());
    assert!(Vec3::new(Fixed::from_raw(ONE_RAW - 1), Fixed::from_raw(0), Fixed::from_raw(0)).is_in_unit_ball());
    assert!(!Vec3::new(Fixed::from_raw(ONE_RAW - 1), Fixed::from_raw(92_682), Fixed::from_raw(0)).is_in_unit_ball());
}

#[test]
fn toward_flips_into_the_hemisphere() {
    let n = v(0.0, 1.0, 0.0);
    assert_eq!(raw(v(0.5, 0.5, 0.0).toward(n)), raw(v(0.5, 0.5, 0.0)));
    assert_eq!(raw(v(0.5, -0.5, 0.0).toward(n)), raw(v(-0.5, 0.5, 0.0)));
    assert_eq!(raw(v(0.5, 0.0, 0.0).toward(n)), raw(v(-0.5, 0.0, 0.0)));
}

#[test]
fn random_components_lie_in_the_range() {
    let low = fx(-0.25);
    let high = fx(0.75);
    let mut differs = false;
    for _ in 0..200 {
        let a = Vec3::random(low..high);
        for c in [a.x(), a.y(), a.z()] {
            assert!(c.ge(low) && c.lt(high));
            differs = differs || c.to_raw() != low.to_raw();
        }
    }
    assert!(differs);
}

#[test]
fn random_draws_differ() {
    let first = Vec3::random(fx(-1.0)..fx(1.0));
    let mut changed = false;
    for _ in 0..50 {
        let next = Vec3::random(fx(-1.0)..fx(1.0));
        changed = changed || raw(next) != raw(first);
    }
    assert!(changed);
}

#[test]
fn random_in_unit_sphere_is_inside() {
    for _ in 0..200 {
        let a = Vec3::random_in_unit_sphere();
        assert!(a.length().lt(Fixed::from_int(1)));
    }
}

#[test]
fn random_in_unit_disk_is_flat_and_inside() {
    for _ in 0..200 {
        let a = Vec3::random_in_unit_disk();
        assert_eq!(a.z().to_raw(), 0);
        assert!(a.length().lt(Fixed::from_int(1)));
    }
}

#[test]
fn to_unit_disk_drops_the_third_component() {
    assert_eq!(raw(v(0.5, -0.25, 0.75).to_unit_disk().unwrap()), raw(v(0.5, -0.25, 0.0)));
    assert_eq!(raw(v(0.0, 0.0, -1.0).to_unit_disk().unwrap()), (0, 0, 0));
    assert_eq!(raw(v(-0.7, 0.7, 0.9).to_unit_disk().unwrap()), raw(v(-0.7, 0.7, 0.0)));
}

#[test]
fn to_unit_disk_rejects_what_lies_outside() {
    assert!(v(0.8, 0.8, 0.0).to_unit_disk().is_none());
    assert!(v(-1.0, 0.0, 0.0).to_unit_disk().is_none());
    assert!(v(0.0, 1.0, 0.5).to_unit_disk().is_none());
    assert!(Vec3::new(Fixed::from_raw(ONE_RAW - 1), Fixed::from_raw(92_682), Fixed::from_raw(5)).to_unit_disk().is_none());
    assert!(Vec3::new(Fixed::from_raw(ONE_RAW - 1), Fixed::from_raw(92_681), Fixed::from_raw(5)).to_unit_disk().is_some());
}

#[test]
fn random_in_unit_disk_varies() {
    let first = Vec3::random_in_unit_disk();
    let mut changed = false;
    let mut off_centre = false;
    for _ in 0..50 {
        let next = Vec3::random_in_unit_disk();
        changed = changed || raw(next) != raw(first);
        off_centre = off_centre || raw(next) != (0, 0, 0);
        assert!(next.x().ge(fx(-1.0)) && next.x().lt(fx(1.0)));
        assert!(next.y().ge(fx(-1.0)) && next.y().lt(fx(1.0)));
    }
    assert!(changed && off_centre);
}

#[test]
fn random_in_hemisphere_faces_the_normal() {
    let n = v(0.0, 0.0, 1.0);
    for _ in 0..200 {
        let a = Vec3::random_in_hemisphere(n);
        assert!(a.dot(&n).ge(Fixed::from_int(0)));
        assert!(a.length().lt(Fixed::from_int(1)));
    }
}

#[test]
fn format_color_white_and_black() {
    let white: Color = v(1.0, 1.0, 1.0);
    assert_eq!(white.format_color(1), "255 255 255");
    let black: Color = v(0.0, 0.0, 0.0);
    assert_eq!(black.format_color(1), "0 0 0");
}

#[test]
fn format_color_applies_gamma_and_average() {
    assert_eq!(v(0.25, 0.5, 4.0).format_color(1), "128 181 255");
    assert_eq!(v(1.0, 0.5, 0.25).format_color(2), "181 128 90");
    assert_eq!(v(0.81, 0.0, -1.0).format_color(1), "230 0 0");
    assert_eq!(v(81.0, 25.0, 100.0).format_color(100), "230 128 255");
}

#[test]
fn format_color_without_samples() {
    assert_eq!(v(0.5, 0.0, -0.5).format_color(0), "255 0 0");
}

#[test]
fn levels_stay_within_a_byte() {
    assert_eq!(v(0.25, 0.5, 4.0).to_levels(1), (128, 181, 255));
    assert_eq!(Vec3::new(Fixed::from_raw(MAX_RAW), Fixed::from_raw(-MAX_RAW), Fixed::from_raw(1)).to_levels(1), (255, 0, 0));
}
