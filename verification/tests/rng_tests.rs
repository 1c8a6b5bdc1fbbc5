use ray_tracer::fixed::Fx;
use ray_tracer::fixed::FX_ONE;
use ray_tracer::ray::Ray;
use ray_tracer::rng::rand_fx;
use ray_tracer::rng::rand_unit_vec;
use ray_tracer::rng::rand_vec;
use ray_tracer::rng::Rng;
use ray_tracer::vec::Vec3;

fn fx(v: f64) -> Fx {
    Fx { bits: (v * 4294967296.0).round() as i64 }
}

#[test]
fn test_ray_macro() {
    let actual = Ray { origin: Vec3::zero(), direction: vec3(1.0, 0.0, 0.0) };
    let expected = Ray {
        origin: vec3(0.0, 0.0, 0.0),
        direction: Vec3 { x: Fx { bits: FX_ONE }, y: Fx { bits: 0 }, z: Fx { bits: 0 } },
    };
    assert_eq!(actual, expected);
}

fn vec3(x: f64, y: f64, z: f64) -> Vec3 {
    Vec3 { x: fx(x), y: fx(y), z: fx(z) }
}

#[test]
fn test_rand_unit_vec_has_norm_one() {
    let mut rng = Rng::new(44);
    let v = rand_unit_vec(&mut rng);
    let actual = v.norm();
    let expected = FX_ONE;

    assert!((actual.bits - expected).abs() < 65536, "norm of unit vector: {}", actual.bits);
    assert!((v.norm_squared().bits - expected).abs() < 65536);
}

#[test]
fn ray_at_walks_the_parametrization() {
    let ray = Ray { origin: vec3(1.0, 2.0, 3.0), direction: vec3(0.0, -1.0, 0.5) };
    assert_eq!(ray.at(fx(0.0)), vec3(1.0, 2.0, 3.0));
    assert_eq!(ray.at(fx(2.0)), vec3(1.0, 0.0, 4.0));
    assert_eq!(ray.at(fx(-2.0)), vec3(1.0, 4.0, 2.0));
}

#[test]
fn rand_fx_stays_in_range_and_is_deterministic() {
    let mut a = Rng::new(123);
    let mut b = Rng::new(123);
    for _ in 0..100 {
        let x = rand_fx(&mut a, fx(-2.5), fx(7.0));
        assert!(fx(-2.5).bits <= x.bits && x.bits <= fx(7.0).bits, "draw out of range: {:?}", x);
        let y = rand_fx(&mut b, fx(-2.5), fx(7.0));
        assert_eq!(x, y, "same seed, same stream");
    }
}

#[test]
fn rand_vec_draws_x_then_y_then_z() {
    let mut a = Rng::new(9);
    let v = rand_vec(&mut a, fx(0.0), fx(1.0));
    let mut b = Rng::new(9);
    let x = rand_fx(&mut b, fx(0.0), fx(1.0));
    let y = rand_fx(&mut b, fx(0.0), fx(1.0));
    let z = rand_fx(&mut b, fx(0.0), fx(1.0));
    assert_eq!(v, Vec3 { x, y, z });
}
