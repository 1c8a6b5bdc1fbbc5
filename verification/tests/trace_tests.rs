use ray_tracer::camera::camera_inputs_ok;
use ray_tracer::camera::setup_camera;
use ray_tracer::color_to_rgb;
use ray_tracer::fixed::Fx;
use ray_tracer::fixed::FX_ONE;
use ray_tracer::get_ray_color;
use ray_tracer::material::Material;
use ray_tracer::ray::Ray;
use ray_tracer::ray_in_bounds;
use ray_tracer::rng::Rng;
use ray_tracer::scene_in_bounds;
use ray_tracer::shape::Sphere;
use ray_tracer::vec::Vec3;

fn fx(v: f64) -> Fx {
    Fx { bits: (v * 4294967296.0).round() as i64 }
}

fn vec3(x: f64, y: f64, z: f64) -> Vec3 {
    Vec3 { x: fx(x), y: fx(y), z: fx(z) }
}

fn demo_scene() -> Vec<Sphere> {
    let ground = Sphere {
        center: vec3(0.0, -100.5, -1.0),
        radius: fx(100.0),
        material: Material::Lambertian { albedo: vec3(0.8, 0.8, 0.0) },
    };
    let center_ball = Sphere {
        center: vec3(0.0, 0.0, -1.0),
        radius: fx(0.5),
        material: Material::Lambertian { albedo: vec3(0.1, 0.2, 0.5) },
    };
    let left_ball = Sphere {
        center: vec3(-1.0, 0.0, -1.0),
        radius: fx(0.5),
        material: Material::Dialectric { refraction_index: fx(1.52) },
    };
    let right_ball = Sphere {
        center: vec3(1.0, 0.0, -1.0),
        radius: fx(0.5),
        material: Material::Metal { albedo: vec3(0.8, 0.6, 0.2), fuzzyness: fx(0.0) },
    };
    vec![center_ball, ground, left_ball, right_ball]
}

#[test]
fn trace_with_zero_depth_is_black() {
    let world = demo_scene();
    let mut rng = Rng::new(1);
    let ray = Ray { origin: Vec3::zero(), direction: vec3(0.0, 0.0, -1.0) };
    let color = get_ray_color(ray, &world, 0, &mut rng);
    assert_eq!(color, vec3(0.0, 0.0, 0.0));
}

#[test]
fn trace_on_empty_scene_straight_up_is_sky_blue() {
    let world: Vec<Sphere> = Vec::new();
    let mut rng = Rng::new(1);
    let ray = Ray { origin: Vec3::zero(), direction: vec3(0.0, 1.0, 0.0) };
    let color = get_ray_color(ray, &world, 10, &mut rng);
    assert_eq!(color, vec3(0.5, 0.7, 1.0));
}

#[test]
fn trace_on_empty_scene_horizontal_ray_blends_the_gradient() {
    let world: Vec<Sphere> = Vec::new();
    let mut rng = Rng::new(1);
    let ray = Ray { origin: Vec3::zero(), direction: vec3(1.0, 0.0, 0.0) };
    let color = get_ray_color(ray, &world, 10, &mut rng);
    // t = 0.5: each channel is white/2 + sky/2, truncated at the last bit.
    let half = fx(0.5);
    let expected = vec3(1.0, 1.0, 1.0).scale(half).add(vec3(0.5, 0.7, 1.0).scale(half));
    assert_eq!(color, expected);
}

#[test]
fn color_accumulates_multiplicatively_across_bounces() {
    // Two clean-metal mirrors bounce the ray exactly twice, then it leaves
    // into the background. With albedo 0.5 per bounce the result is exactly
    // one quarter of what the same geometry with albedo 1 yields.
    let mirror_a = vec3(0.0, 0.0, -6.0);
    let mirror_b = vec3(0.0, 0.5, 5.0);
    let scene_with = |albedo: Vec3| -> Vec<Sphere> {
        vec![
            Sphere {
                center: mirror_a,
                radius: fx(1.0),
                material: Material::Metal { albedo, fuzzyness: fx(0.0) },
            },
            Sphere {
                center: mirror_b,
                radius: fx(1.0),
                material: Material::Metal { albedo, fuzzyness: fx(0.0) },
            },
        ]
    };
    let dim = scene_with(vec3(0.5, 0.5, 0.5));
    let bright = scene_with(vec3(1.0, 1.0, 1.0));
    let ray = Ray { origin: Vec3::zero(), direction: vec3(0.0, 0.0, -1.0) };

    let mut rng_dim = Rng::new(33);
    let dim_color = get_ray_color(ray, &dim, 4, &mut rng_dim);
    let mut rng_bright = Rng::new(33);
    let bright_color = get_ray_color(ray, &bright, 4, &mut rng_bright);

    assert_ne!(bright_color, vec3(0.0, 0.0, 0.0), "the path must reach the background");
    assert_eq!(dim_color, bright_color.scale(fx(0.25)));
    assert_eq!(rng_dim, rng_bright, "albedo does not touch the random stream");
}

#[test]
fn absorbed_path_is_black() {
    // A grazing ray onto a clean metal sphere is absorbed (see the metal
    // scatter rule): the traced colour is black.
    let world = vec![Sphere {
        center: vec3(0.0, -1.0, -3.0),
        radius: fx(1.0),
        material: Material::Metal { albedo: vec3(0.9, 0.9, 0.9), fuzzyness: fx(0.0) },
    }];
    let ray = Ray { origin: Vec3::zero(), direction: vec3(0.0, 0.0, -1.0) };
    let mut rng = Rng::new(2);
    let color = get_ray_color(ray, &world, 5, &mut rng);
    assert_eq!(color, vec3(0.0, 0.0, 0.0));
}

#[test]
fn closest_sphere_wins() {
    // Two spheres on the same line: the material of the nearer one decides.
    let near_albedo = vec3(0.1, 0.2, 0.5);
    let world = vec![
        Sphere {
            center: vec3(0.0, 0.0, -8.0),
            radius: fx(1.0),
            material: Material::Lambertian { albedo: vec3(0.9, 0.9, 0.9) },
        },
        Sphere {
            center: vec3(0.0, 0.0, -3.0),
            radius: fx(1.0),
            material: Material::Lambertian { albedo: near_albedo },
        },
    ];
    let ray = Ray { origin: Vec3::zero(), direction: vec3(0.0, 0.0, -1.0) };
    let mut rng = Rng::new(3);
    let color = get_ray_color(ray, &world, 2, &mut rng);
    // depth 2: one diffuse bounce off the near sphere, then the background;
    // every channel is bounded by the near albedo.
    assert!(color.x.bits <= near_albedo.x.bits);
    assert!(color.y.bits <= near_albedo.y.bits);
    assert!(color.z.bits <= near_albedo.z.bits);
}

#[test]
fn traced_colors_stay_in_unit_range() {
    let world = demo_scene();
    assert!(scene_in_bounds(&world));
    let mut rng = Rng::new(17);

    let look_from = vec3(-2.0, 2.0, 1.0);
    let look_at = vec3(0.0, 0.0, -1.0);
    let up = vec3(0.0, 1.0, 0.0);
    let focus = look_from.sub(look_at).norm();
    let tan_half_fov = fx((10f64).to_radians().tan());
    let aspect = Fx::from_ratio(16, 9);
    let aperture = fx(0.5);
    assert!(camera_inputs_ok(&look_from, &look_at, &up, tan_half_fov, aspect, aperture, focus));
    let camera = setup_camera(look_from, look_at, up, tan_half_fov, aspect, aperture, focus);

    for i in 0..5 {
        for j in 0..5 {
            let x = Fx::from_ratio(i, 5);
            let y = Fx::from_ratio(j, 5);
            let ray = camera.send_ray_towards(&mut rng, x, y);
            assert!(ray_in_bounds(&ray), "camera ray out of bounds: {:?}", ray);
            let c = get_ray_color(ray, &world, 20, &mut rng);
            for ch in [c.x, c.y, c.z] {
                assert!(0 <= ch.bits && ch.bits <= FX_ONE, "channel out of range: {:?}", ch);
            }
        }
    }
}

#[test]
fn camera_center_ray_points_at_the_target() {
    let look_from = vec3(-2.0, 2.0, 1.0);
    let look_at = vec3(0.0, 0.0, -1.0);
    let up = vec3(0.0, 1.0, 0.0);
    let focus = look_from.sub(look_at).norm();
    let tan_half_fov = fx((10f64).to_radians().tan());
    let camera = setup_camera(look_from, look_at, up, tan_half_fov, Fx::from_ratio(16, 9), fx(0.0), focus);
    let mut rng = Rng::new(1);
    let ray = camera.send_ray_towards(&mut rng, fx(0.5), fx(0.5));
    // With a closed aperture the origin is the camera position, and the
    // center ray heads from look-from toward look-at: +x, -y, -z.
    assert_eq!(ray.origin, look_from);
    assert!(ray.direction.x.bits > 0);
    assert!(ray.direction.y.bits < 0);
    assert!(ray.direction.z.bits < 0);
}

#[test]
fn zero_direction_ray_yields_black() {
    // A direction of zero norm meets nothing and carries no light.
    let world = demo_scene();
    let mut rng = Rng::new(8);
    let ray = Ray { origin: vec3(0.0, 0.0, 0.0), direction: Vec3::zero() };
    assert_eq!(get_ray_color(ray, &world, 5, &mut rng), vec3(0.0, 0.0, 0.0));
}

#[test]
fn direction_below_fixed_point_resolution_hits_nothing() {
    // A direction so small that its fixed-point squared norm truncates to
    // zero behaves like the zero direction.
    let world = demo_scene();
    let sphere = &world[0];
    let tiny = Vec3 { x: Fx { bits: 1 }, y: Fx { bits: 0 }, z: Fx { bits: 0 } };
    let ray = Ray { origin: Vec3::zero(), direction: tiny };
    assert_eq!(sphere.collide(&ray, fx(0.001), fx(100.0)), None);
    let mut rng = Rng::new(8);
    assert_eq!(get_ray_color(ray, &world, 5, &mut rng), vec3(0.0, 0.0, 0.0));
}

#[test]
fn tone_mapping_gamma_corrects_and_clamps() {
    let gamma = Fx { bits: FX_ONE };
    // sqrt(0.25) = 0.5 exactly: the channel maps to floor(255 * 0.5) = 127.
    assert_eq!(color_to_rgb(vec3(0.25, 0.0, 1.0), gamma), (127, 0, 255));
    // Values above 1 clamp to 255; negatives clamp to 0.
    assert_eq!(color_to_rgb(vec3(9.0, -1.0, 1.0), gamma), (255, 0, 255));
    // The scale divides accumulated samples: 4 samples of 1.0 at scale 1/4.
    assert_eq!(color_to_rgb(vec3(4.0, 0.0, 0.0), Fx::from_ratio(1, 4)), (255, 0, 0));
}
