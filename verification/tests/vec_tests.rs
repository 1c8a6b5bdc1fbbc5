use ray_tracer::fixed::Fx;
use ray_tracer::fixed::FX_ONE;
use ray_tracer::vec::Vec3;

fn fx(v: f64) -> Fx {
    Fx { bits: (v * 4294967296.0).round() as i64 }
}

fn vec3(x: f64, y: f64, z: f64) -> Vec3 {
    Vec3 { x: fx(x), y: fx(y), z: fx(z) }
}

#[test]
fn test_vec3_macro_without_args() {
    let actual: Vec3 = Vec3::zero();
    let expected: Vec3 = Vec3 { x: fx(0.0), y: fx(0.0), z: fx(0.0) };
    assert_eq!(actual, expected);
}

#[test]
fn test_vec3_macro_with_args() {
    let actual: Vec3 = vec3(42.1, 11.3, 0.11);
    let expected: Vec3 = Vec3 { x: fx(42.1), y: fx(11.3), z: fx(0.11) };
    assert_eq!(actual, expected);
}

#[test]
fn test_vec3_add() {
    let v1: Vec3 = vec3(1.0, 0.5, 2.0);
    let v2: Vec3 = vec3(0.0, 1.5, 1.0);
    let actual = v1.add(v2);
    let expected: Vec3 = vec3(1.0, 2.0, 3.0);
    assert_eq!(actual, expected);
}

#[test]
fn test_vec3_sub() {
    let v1: Vec3 = vec3(1.0, -0.5, 2.0);
    let v2: Vec3 = vec3(2.0, 1.5, 1.0);
    let actual = v1.sub(v2);
    let expected: Vec3 = vec3(-1.0, -2.0, 1.0);
    assert_eq!(actual, expected);
}

#[test]
fn test_vec3_neg() {
    let v: Vec3 = vec3(1.0, -0.5, 2.0);
    let actual = v.neg();
    let expected: Vec3 = vec3(-1.0, 0.5, -2.0);
    assert_eq!(actual, expected);
}

#[test]
fn test_vec3_scalar_mul() {
    let v: Vec3 = vec3(1.0, -0.5, 2.0);
    let t: Fx = fx(8.0);
    let actual = v.scale(t);
    let expected: Vec3 = vec3(8.0, -4.0, 16.0);
    assert_eq!(actual, expected);
}

#[test]
fn test_vec3_vec3_mul() {
    let v: Vec3 = vec3(1.0, -0.5, 2.0);
    let w: Vec3 = vec3(2.0, -0.5, -1.0);
    let actual = v.mul(w);
    let expected: Vec3 = vec3(2.0, 0.25, -2.0);
    assert_eq!(actual, expected);
}

#[test]
fn test_norm_squared() {
    let sqrt5 = Fx { bits: 5 * FX_ONE }.sqrt();
    let v = Vec3 { x: sqrt5, y: fx(2.0), z: fx(4.0) };
    let actual = v.norm_squared();
    let expected = 25 * FX_ONE;
    assert!((actual.bits - expected).abs() <= 8, "norm_squared off: {}", actual.bits);
}

#[test]
fn test_norm() {
    let sqrt5 = Fx { bits: 5 * FX_ONE }.sqrt();
    let v = Vec3 { x: sqrt5, y: fx(2.0), z: fx(4.0) };
    let actual = v.norm();
    let expected = 5 * FX_ONE;
    assert!((actual.bits - expected).abs() <= 4, "norm off: {}", actual.bits);
}

#[test]
fn test_dot() {
    let v1 = vec3(1.0, 2.0, 3.0);
    let v2 = vec3(-2.0, 0.0, 3.0);
    let actual = v1.dot(&v2);
    let expected = fx(-2.0 + 0.0 + 9.0);
    assert_eq!(actual, expected);
}

#[test]
fn test_cross() {
    let v1 = vec3(2.0, 3.0, 4.0);
    let v2 = vec3(5.0, 6.0, 7.0);
    let actual = v1.cross(&v2);
    let expected = vec3(-3.0, 6.0, -3.0);
    assert_eq!(actual, expected);
}

#[test]
fn test_rotate_60_degrees() {
    let v = vec3(0.5, 0.5, -1.0);
    let rotation_axis = vec3(0.0, 0.0, -1.0);
    let theta = 60f64.to_radians();
    let actual = v.rotate(&rotation_axis, fx(theta.sin()), fx(theta.cos()));
    let expected = vec3(0.68301, -0.18301, -1.0);

    let distance = actual.sub(expected).norm();
    assert!(
        distance.bits < fx(0.001).bits,
        "||actual - expected|| = ||{:?} - {:?}|| too large",
        actual,
        expected
    );
}

#[test]
fn test_rotate_30_degrees() {
    let v = vec3(0.5, 0.5, -1.0);
    let rotation_axis = vec3(0.0, 0.0, 1.0);
    let theta = 30f64.to_radians();
    let actual = v.rotate(&rotation_axis, fx(theta.sin()), fx(theta.cos()));
    let expected = vec3(0.18301, 0.68301, -1.0);

    let distance = actual.sub(expected).norm();
    assert!(
        distance.bits < fx(0.001).bits,
        "||actual - expected|| = ||{:?} - {:?}|| too large",
        actual,
        expected
    );
}

#[test]
fn test_unit_vec() {
    let v = vec3(1.0, 1.0, 0.0);
    let actual = v.to_unit_vec();
    let inv_sqrt2 = Fx { bits: FX_ONE }.div(v.norm());
    let expected = Vec3 { x: inv_sqrt2, y: inv_sqrt2, z: fx(0.0) };
    assert_eq!(actual, expected);
}

#[test]
fn normalization_is_near_unit_above_the_eps_floor() {
    // For inputs of squared norm at least 2^-16, the normalized result's
    // squared norm is within 2^-13 of 1 (the library's stated bound).
    for v in [vec3(3.7, -2.2, 951.0), vec3(0.004, 0.0, 0.0), vec3(-1.0, 1.0, -1.0)] {
        let u = v.to_unit_vec();
        let dev = (u.norm_squared().bits - FX_ONE).abs();
        assert!(dev <= 0x8_0000, "norm too far from 1: {dev} bits for {v:?}");
    }
}

#[test]
fn reflection_preserves_norm_within_tolerance() {
    // A unit vector reflected about a unit normal keeps its norm.
    let v = vec3(3.0, 4.0, 0.0).to_unit_vec();
    let n = vec3(0.0, 1.0, 0.0);
    let r = ray_tracer::material::reflect(&v, &n);
    assert_eq!(r.x, v.x);
    assert_eq!(r.y, v.y.neg());
    assert_eq!(r.z, v.z);
    let diff = (r.norm().bits - v.norm().bits).abs();
    assert!(diff <= 16, "reflection changed the norm by {} bits", diff);
}
