use ray_tracer::fixed::Fx;
use ray_tracer::fixed::FX_ONE;
use ray_tracer::material::Material;
use ray_tracer::ray::Ray;
use ray_tracer::shape::Collision;
use ray_tracer::shape::Sphere;
use ray_tracer::vec::Vec3;

fn fx(v: f64) -> Fx {
    Fx { bits: (v * 4294967296.0).round() as i64 }
}

fn vec3(x: f64, y: f64, z: f64) -> Vec3 {
    Vec3 { x: fx(x), y: fx(y), z: fx(z) }
}

#[test]
fn test_sphere_macro() {
    let actual = Sphere {
        center: Vec3::zero(),
        radius: fx(1.0),
        material: Material::Lambertian { albedo: Vec3::zero() },
    };
    let expected = Sphere {
        center: vec3(0.0, 0.0, 0.0),
        radius: Fx { bits: FX_ONE },
        material: Material::Lambertian { albedo: vec3(0.0, 0.0, 0.0) },
    };
    assert_eq!(actual, expected);
}

#[test]
fn test_ray_collides_sphere() {
    let material = Material::Dialectric { refraction_index: fx(1.0) };
    let sphere = Sphere { center: vec3(0.0, 0.0, -2.0), radius: fx(1.0), material };
    let ray = Ray { origin: Vec3::zero(), direction: vec3(0.0, 0.0, -1.0) };
    let actual = sphere.collide(&ray, fx(0.0), fx(10.0));

    let expected = Some(Collision {
        pos: vec3(0.0, 0.0, -1.0),
        normal: vec3(0.0, 0.0, 1.0),
        ray_is_inside: false,
        t: fx(1.0),
        material,
    });

    assert_eq!(actual, expected);
}

#[test]
fn test_ray_collides_inside_sphere() {
    let material = Material::Dialectric { refraction_index: fx(1.0) };
    let sphere = Sphere { center: vec3(0.0, 0.0, -2.0), radius: fx(1.0), material };

    let inside_sphere_pos: Vec3 = vec3(0.0, 0.0, -1.5);
    let ray = Ray { origin: inside_sphere_pos, direction: vec3(0.0, 0.0, -1.0) };
    let actual = sphere.collide(&ray, fx(0.0), fx(10.0));

    let expected = Some(Collision {
        pos: vec3(0.0, 0.0, -3.0),
        normal: vec3(0.0, 0.0, 1.0),
        ray_is_inside: true,
        t: fx(1.5),
        material,
    });

    assert_eq!(actual, expected);
}

#[test]
fn test_ray_starting_on_boundary_collides_sphere() {
    let material = Material::Dialectric { refraction_index: fx(1.0) };
    let sphere = Sphere { center: vec3(0.0, 0.0, -2.0), radius: fx(1.0), material };

    let sphere_boundary: Vec3 = vec3(0.0, 0.0, -1.0);
    let ray = Ray { origin: sphere_boundary, direction: vec3(0.0, 0.0, -1.0) };
    let t_min = fx(0.01); // important we enforce t >= 0 here!
    let actual = sphere.collide(&ray, t_min, fx(10.0));

    let expected = Some(Collision {
        pos: vec3(0.0, 0.0, -3.0),
        normal: vec3(0.0, 0.0, 1.0),
        ray_is_inside: true,
        t: fx(2.0),
        material,
    });

    assert_eq!(actual, expected);
}

#[test]
fn ray_toward_center_hits_at_distance_minus_radius() {
    // From distance 5 along the line to the center of a radius-2 sphere:
    // near root at t = 3, far root at t = 7.
    let material = Material::Lambertian { albedo: vec3(0.5, 0.5, 0.5) };
    let sphere = Sphere { center: vec3(0.0, 0.0, -5.0), radius: fx(2.0), material };
    let ray = Ray { origin: Vec3::zero(), direction: vec3(0.0, 0.0, -1.0) };

    let near = sphere.collide(&ray, fx(0.0), fx(10.0)).expect("near hit");
    assert_eq!(near.t, fx(3.0));
    assert!(!near.ray_is_inside);

    let far = sphere.collide(&ray, fx(4.0), fx(10.0)).expect("far hit");
    assert_eq!(far.t, fx(7.0));
    assert!(far.ray_is_inside);
}

#[test]
fn collide_is_none_when_discriminant_is_negative() {
    let material = Material::Lambertian { albedo: vec3(0.5, 0.5, 0.5) };
    let sphere = Sphere { center: vec3(0.0, 0.0, -5.0), radius: fx(1.0), material };
    // A ray pointing straight up passes far from the sphere.
    let ray = Ray { origin: Vec3::zero(), direction: vec3(0.0, 1.0, 0.0) };
    assert_eq!(sphere.collide(&ray, fx(0.0), fx(100.0)), None);
}

#[test]
fn collide_window_is_boundary_inclusive() {
    let material = Material::Lambertian { albedo: vec3(0.5, 0.5, 0.5) };
    let sphere = Sphere { center: vec3(0.0, 0.0, -2.0), radius: fx(1.0), material };
    let ray = Ray { origin: Vec3::zero(), direction: vec3(0.0, 0.0, -1.0) };

    // The near root t == 1 is accepted exactly at t_min == 1.
    let at_min = sphere.collide(&ray, fx(1.0), fx(10.0)).expect("boundary hit");
    assert_eq!(at_min.t, fx(1.0));

    // The far root t == 3 is accepted exactly at t_max == 3.
    let at_max = sphere.collide(&ray, fx(1.5), fx(3.0)).expect("far boundary hit");
    assert_eq!(at_max.t, fx(3.0));

    // With both roots outside the window there is no collision.
    assert_eq!(sphere.collide(&ray, fx(1.5), fx(2.5)), None);
}

#[test]
fn collide_normal_opposes_ray_direction() {
    // Across a spread of ray/sphere pairs, direction . normal <= 0.
    let material = Material::Metal { albedo: vec3(0.8, 0.6, 0.2), fuzzyness: fx(0.3) };
    let mut rng = ray_tracer::rng::Rng::new(7);
    let mut hits = 0;
    for _ in 0..40 {
        let center = ray_tracer::rng::rand_vec(&mut rng, fx(-3.0), fx(3.0));
        let origin = ray_tracer::rng::rand_vec(&mut rng, fx(-4.0), fx(4.0));
        let direction = ray_tracer::rng::rand_vec(&mut rng, fx(-1.0), fx(1.0));
        let sphere = Sphere { center, radius: fx(1.25), material };
        let ray = Ray { origin, direction };
        if let Some(col) = sphere.collide(&ray, fx(0.001), fx(100.0)) {
            hits += 1;
            let d = ray.direction.dot(&col.normal);
            assert!(d.bits <= 0, "normal does not oppose the ray: {:?}", d);
            let ns = col.normal.norm_squared();
            assert!(
                (ns.bits - 4294967296).abs() <= 0x400_0000,
                "normal is not near unit length: {:?}",
                ns
            );
        }
    }
    assert!(hits > 0, "no random pair hit; the check is vacuous");
}

#[test]
fn spheres_poking_out_of_the_world_box_are_rejected() {
    // A well-formed sphere lies wholly inside the world box: the center
    // magnitude plus the radius magnitude must stay within 4096 per axis.
    let material = Material::Lambertian { albedo: vec3(0.5, 0.5, 0.5) };
    let poking = Sphere { center: vec3(4095.0, 0.0, 0.0), radius: fx(2.0), material };
    assert!(!ray_tracer::shape::sphere_in_bounds(&poking));
    let inside = Sphere { center: vec3(4094.0, 0.0, 0.0), radius: fx(2.0), material };
    assert!(ray_tracer::shape::sphere_in_bounds(&inside));
}

#[test]
fn hits_beyond_the_scene_box_are_kept() {
    // Ray origins and hit parameters well beyond the 4096 scene box are
    // representable: from 5000 units away the near root t = 4998 is found.
    let material = Material::Lambertian { albedo: vec3(0.5, 0.5, 0.5) };
    let sphere = Sphere { center: vec3(0.0, 0.0, 0.0), radius: fx(2.0), material };
    let ray = Ray { origin: vec3(0.0, 0.0, 5000.0), direction: vec3(0.0, 0.0, -1.0) };
    let col = sphere.collide(&ray, fx(0.001), fx(6000.0)).expect("distant hit");
    assert_eq!(col.t, fx(4998.0));
    assert_eq!(col.pos, vec3(0.0, 0.0, 2.0));
    assert!(!col.ray_is_inside);
}

#[test]
fn negative_radius_sphere_flips_the_normal() {
    // A hollow shell: the outward normal (P - C) / r points inward.
    let material = Material::Dialectric { refraction_index: fx(1.52) };
    let sphere = Sphere { center: vec3(0.0, 0.0, -2.0), radius: fx(-1.0), material };
    let ray = Ray { origin: Vec3::zero(), direction: vec3(0.0, 0.0, -1.0) };
    let col = sphere.collide(&ray, fx(0.0), fx(10.0)).expect("hit");
    assert_eq!(col.t, fx(1.0));
    // (P - C) / r = (0, 0, -1) for the negative radius, so the ray counts
    // as inside and the reported normal still opposes the ray.
    assert!(col.ray_is_inside);
    assert!(ray.direction.dot(&col.normal).bits <= 0);
}
