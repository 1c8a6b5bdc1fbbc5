use ray_tracer::fixed::Fx;
use ray_tracer::fixed::FX_ONE;
use ray_tracer::material::reflect;
use ray_tracer::material::reflectance;
use ray_tracer::material::refract;
use ray_tracer::material::Material;
use ray_tracer::ray::Ray;
use ray_tracer::rng::Rng;
use ray_tracer::vec::Vec3;

fn fx(v: f64) -> Fx {
    Fx { bits: (v * 4294967296.0).round() as i64 }
}

fn vec3(x: f64, y: f64, z: f64) -> Vec3 {
    Vec3 { x: fx(x), y: fx(y), z: fx(z) }
}

fn to_f64(v: Fx) -> f64 {
    (v.bits as f64) / 4294967296.0
}

#[test]
fn reflectance_at_normal_incidence_is_r0_exactly() {
    // At cos_theta = 1 the grazing-angle term vanishes exactly, so the
    // reflectance equals r0 = ((1 - ratio) / (1 + ratio))^2 bit for bit.
    let one = Fx { bits: FX_ONE };
    for ratio in [Fx::from_ratio(100, 152), fx(1.52), fx(1.333), fx(2.417), fx(0.25)] {
        let r = one.sub(ratio).div(one.add(ratio));
        let r0 = r.mul(r);
        assert_eq!(reflectance(one, ratio), r0);
    }
}

#[test]
fn reflectance_grows_toward_grazing_angles() {
    let ratio = Fx::from_ratio(100, 152);
    let normal = reflectance(fx(1.0), ratio);
    let oblique = reflectance(fx(0.5), ratio);
    let grazing = reflectance(fx(0.05), ratio);
    assert!(normal.bits < oblique.bits && oblique.bits < grazing.bits);
}

fn refraction_angle_degrees(theta_deg: f64, ratio: Fx) -> f64 {
    let theta = theta_deg.to_radians();
    let v = vec3(theta.cos(), theta.sin(), 0.0);
    let n = vec3(-1.0, 0.0, 0.0);
    assert_eq!(v.dot(&n).bits.signum(), -1);
    let refracted = refract(&v, &n, ratio);
    let cos = to_f64(refracted.dot(&n.neg())) / to_f64(refracted.norm());
    cos.min(1.0).acos().to_degrees()
}

#[test]
fn vacuum_to_glass() {
    // Snell's law: 30 degrees into glass of index 1.52 refracts to 19.2049.
    let actual = refraction_angle_degrees(30.0, Fx::from_ratio(100, 152));
    assert!((actual - 19.2049).abs() < 1e-3, "angle = {actual}");
}

#[test]
fn glass_to_vacuum() {
    let actual = refraction_angle_degrees(25.0, fx(1.52));
    assert!((actual - 39.9695).abs() < 1e-3, "angle = {actual}");
}

#[test]
fn vacuum_to_water() {
    let actual = refraction_angle_degrees(27.0, Fx::from_ratio(1000, 1333));
    assert!((actual - 19.9121).abs() < 1e-3, "angle = {actual}");
}

#[test]
fn lambertian_always_scatters_with_its_albedo() {
    let albedo = vec3(0.1, 0.2, 0.5);
    let material = Material::Lambertian { albedo };
    let mut rng = Rng::new(5);
    let ray = Ray { origin: vec3(0.0, 2.0, 0.0), direction: vec3(0.0, -1.0, 0.0) };
    let point = vec3(0.0, 1.0, 0.0);
    let normal = vec3(0.0, 1.0, 0.0);
    for _ in 0..20 {
        let (scattered, attenuation) =
            material.scatter(&mut rng, &ray, &point, &normal, false).expect("always scatters");
        assert_eq!(attenuation, albedo);
        assert_eq!(scattered.origin, point);
        // The scattered direction stays in the hemisphere of the normal.
        assert!(scattered.direction.dot(&normal).bits > 0);
    }
}

#[test]
fn clean_metal_reflects_like_a_mirror() {
    let material = Material::Metal { albedo: vec3(0.8, 0.6, 0.2), fuzzyness: fx(0.0) };
    let mut rng = Rng::new(5);
    let ray = Ray { origin: vec3(0.0, 1.0, 1.0), direction: vec3(0.0, -1.0, -1.0) };
    let point = Vec3::zero();
    let normal = vec3(0.0, 1.0, 0.0);
    let (scattered, attenuation) =
        material.scatter(&mut rng, &ray, &point, &normal, false).expect("reflects");
    assert_eq!(attenuation, vec3(0.8, 0.6, 0.2));
    let expected = reflect(&ray.direction.to_unit_vec(), &normal);
    assert_eq!(scattered.direction, expected);
}

#[test]
fn grazing_metal_ray_is_absorbed() {
    // A reflection parallel to the surface has direction . normal == 0 and
    // the path is absorbed.
    let material = Material::Metal { albedo: vec3(0.8, 0.6, 0.2), fuzzyness: fx(0.0) };
    let mut rng = Rng::new(5);
    let ray = Ray { origin: vec3(-1.0, 0.0, 0.0), direction: vec3(1.0, 0.0, 0.0) };
    let point = Vec3::zero();
    let normal = vec3(0.0, 1.0, 0.0);
    assert_eq!(material.scatter(&mut rng, &ray, &point, &normal, false), None);
}

#[test]
fn total_internal_reflection_reflects() {
    // Inside glass at 45 degrees: 1.52 * sin(45) > 1, so the ray must
    // reflect; no reflectance draw is made.
    let material = Material::Dialectric { refraction_index: fx(1.52) };
    let mut rng = Rng::new(5);
    let state_before = rng;
    let dir = vec3(1.0, -1.0, 0.0);
    let ray = Ray { origin: vec3(-1.0, 1.0, 0.0), direction: dir };
    let point = Vec3::zero();
    let normal = vec3(0.0, 1.0, 0.0);
    let (scattered, attenuation) =
        material.scatter(&mut rng, &ray, &point, &normal, true).expect("always scatters");
    assert_eq!(attenuation, vec3(1.0, 1.0, 1.0));
    assert_eq!(scattered.direction, reflect(&dir.to_unit_vec(), &normal));
    assert_eq!(rng, state_before, "total internal reflection draws nothing");
}

#[test]
fn dielectric_attenuation_is_white() {
    let material = Material::Dialectric { refraction_index: fx(1.52) };
    let mut rng = Rng::new(11);
    let ray = Ray { origin: vec3(0.0, 1.0, 0.0), direction: vec3(0.3, -1.0, 0.0) };
    let point = Vec3::zero();
    let normal = vec3(0.0, 1.0, 0.0);
    let (_, attenuation) =
        material.scatter(&mut rng, &ray, &point, &normal, false).expect("always scatters");
    assert_eq!(attenuation, vec3(1.0, 1.0, 1.0));
}
