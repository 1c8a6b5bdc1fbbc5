//! A small ray tracer over verified fixed-point arithmetic.
//!
//! Spheres of diffuse, metallic and refractive materials are traced
//! recursively; every numeric operation is specified exactly over the
//! fixed-point bits, so the colour a ray yields is a proven function of the
//! scene, the ray and the random-generator state.
use vstd::prelude::*;

pub mod fixed;
pub mod vec;
pub mod ray;
pub mod rng;
pub mod material;
pub mod shape;
pub mod camera;

use crate::fixed::div_trunc;
use crate::fixed::fx_clamp;
use crate::fixed::fx_max;
use crate::fixed::fx_mul;
use crate::fixed::fx_sqrt;
use crate::fixed::lemma_fx_mul_comm;
use crate::fixed::lemma_fx_mul_le;
use crate::fixed::lemma_fx_mul_mag;
use crate::fixed::lemma_fx_mul_one;
use crate::fixed::lemma_fx_mul_unit;
use crate::fixed::lemma_sq_le;
use crate::fixed::mag;
use crate::fixed::Fx;
use crate::fixed::FX_ONE;
use crate::material::color_wf;
use crate::material::material_wf;
use crate::material::scatter_spec;
use crate::ray::Ray;
use crate::ray::Rayi;
use crate::ray::T_HORIZON;
use crate::rng::rng_wf;
use crate::rng::Rng;
use crate::shape::collide_spec;
use crate::shape::collide_view;
use crate::shape::sphere_wf;
use crate::shape::NORMAL_TOL;
use crate::shape::Collision;
use crate::shape::CollisionS;
use crate::shape::Sphere;
use crate::vec::norm_sq_fx;
use crate::vec::unit_fx;
use crate::vec::v3_add;
use crate::vec::v3_in_range;
use crate::vec::v3_mul;
use crate::vec::v3_scale;
use crate::vec::Color;
use crate::vec::Vec3;
use crate::vec::Vec3i;
use crate::vec::DIR_MAX;
use crate::vec::HIT_MAX;
use crate::vec::UNIT_MAX;

verus! {

/// Shadow-acne epsilon: the least accepted ray parameter (0.001).
pub const T_EPS: i64 = 4294967;

/// The bits of one half.
pub const FX_HALF: i64 = 0x8000_0000;

/// The green channel of the sky colour (0.7).
pub const SKY_G: i64 = 3006477107;

/// Every sphere of a scene is representable.
pub open spec fn scene_wf(scene: Seq<Sphere>) -> bool {
    forall|i: int| 0 <= i < scene.len() ==> sphere_wf(#[trigger] scene[i]@)
}

/// A collision record the tracer can keep working with.
pub open spec fn collision_ok(c: CollisionS) -> bool {
    &&& v3_in_range(c.pos, HIT_MAX as int)
    &&& v3_in_range(c.normal, UNIT_MAX as int)
    &&& mag(norm_sq_fx(c.normal) - FX_ONE as int) <= NORMAL_TOL as int
    &&& material_wf(c.material)
    &&& T_EPS as int <= c.t <= T_HORIZON as int
}

/// The nearest collision over the spheres from index `i` on, tightening the
/// search window to each hit found so far.
pub open spec fn closest_from_spec(
    scene: Seq<Sphere>,
    ray: Rayi,
    i: int,
    t_max: int,
    best: Option<CollisionS>,
) -> Option<CollisionS>
    decreases scene.len() - i,
{
    if i < 0 || i >= scene.len() {
        best
    } else {
        match collide_spec(scene[i]@, ray, T_EPS as int, t_max) {
            Some(c) => closest_from_spec(scene, ray, i + 1, c.t, Some(c)),
            None => closest_from_spec(scene, ray, i + 1, t_max, best),
        }
    }
}

/// The nearest collision of a ray with a scene, within the representable
/// parameter window.
pub open spec fn closest_collision_spec(scene: Seq<Sphere>, ray: Rayi) -> Option<CollisionS> {
    closest_from_spec(scene, ray, 0, T_HORIZON as int, None)
}

/// The background: a vertical white-to-sky-blue gradient over the normalized
/// direction. A direction of zero fixed-point norm carries no light.
pub open spec fn background_fx(ray: Rayi) -> Vec3i {
    if norm_sq_fx(ray.direction) < 1 {
        Vec3i { x: 0, y: 0, z: 0 }
    } else {
        let u = unit_fx(ray.direction);
        let t = fx_clamp(fx_mul(FX_HALF as int, u.y + FX_ONE as int), 0, FX_ONE as int);
        v3_add(
            v3_scale(
                Vec3i { x: FX_ONE as int, y: FX_ONE as int, z: FX_ONE as int },
                FX_ONE as int - t,
            ),
            v3_scale(Vec3i { x: FX_HALF as int, y: SKY_G as int, z: FX_ONE as int }, t),
        )
    }
}

/// The exact behaviour of `get_ray_color`: the colour a ray yields and the
/// generator state after all the draws the trace makes. Attenuations
/// multiply componentwise across bounces; the path ends on depth exhaustion
/// (black), absorption (black) or a miss (background).
pub open spec fn trace_spec(scene: Seq<Sphere>, ray: Rayi, depth: nat, s: int) -> (Vec3i, int)
    decreases depth,
{
    if depth == 0 {
        (Vec3i { x: 0, y: 0, z: 0 }, s)
    } else {
        match closest_collision_spec(scene, ray) {
            Some(col) => {
                let (sc, s2) = scatter_spec(
                    col.material,
                    ray,
                    col.pos,
                    col.normal,
                    col.ray_is_inside,
                    s,
                );
                match sc {
                    Some((ray2, att)) => {
                        let (c, s3) = trace_spec(scene, ray2, (depth - 1) as nat, s2);
                        (v3_mul(att, c), s3)
                    },
                    None => (Vec3i { x: 0, y: 0, z: 0 }, s2),
                }
            },
            None => (background_fx(ray), s),
        }
    }
}

/// Colour accumulation is multiplicative across bounces: where the nearest
/// collision scatters into `ray2` with attenuation `att`, the colour traced
/// at some depth is exactly `att` times (componentwise) the colour of `ray2`
/// traced one bounce shallower, under the generator state the scatter left.
pub proof fn lemma_trace_multiplicative(
    scene: Seq<Sphere>,
    ray: Rayi,
    depth: nat,
    s: int,
    col: CollisionS,
    ray2: Rayi,
    att: Vec3i,
)
    requires
        depth > 0,
        closest_collision_spec(scene, ray) == Some(col),
        scatter_spec(col.material, ray, col.pos, col.normal, col.ray_is_inside, s).0 == Some(
            (ray2, att),
        ),
    ensures
        trace_spec(scene, ray, depth, s).0 == v3_mul(
            att,
            trace_spec(
                scene,
                ray2,
                (depth - 1) as nat,
                scatter_spec(col.material, ray, col.pos, col.normal, col.ray_is_inside, s).1,
            ).0,
        ),
{
}

/// The nearest collision of `ray` across all the spheres, with `t` in the
/// representable window above the shadow-acne epsilon.
fn get_closest_collision(ray: &Ray, hit_ables: &Vec<Sphere>) -> (r: Option<Collision>)
    requires
        scene_wf(hit_ables@),
        v3_in_range(ray@.origin, HIT_MAX as int),
        v3_in_range(ray@.direction, DIR_MAX as int),
    ensures
        collide_view(r) == closest_collision_spec(hit_ables@, ray@),
        r matches Some(_) ==> norm_sq_fx(ray@.direction) >= 1,
        match r {
            Some(col) => collision_ok(col@),
            None => true,
        },
{
    let mut closest = Fx { bits: T_HORIZON };
    let mut closest_collision: Option<Collision> = None;
    let mut i: usize = 0;
    while i < hit_ables.len()
        invariant
            scene_wf(hit_ables@),
            v3_in_range(ray@.origin, HIT_MAX as int),
            v3_in_range(ray@.direction, DIR_MAX as int),
            0 <= i <= hit_ables@.len(),
            T_EPS as int <= closest@ <= T_HORIZON as int,
            closest_from_spec(hit_ables@, ray@, i as int, closest@, collide_view(closest_collision))
                == closest_collision_spec(hit_ables@, ray@),
            match closest_collision {
                Some(c) => collision_ok(c@) && c@.t == closest@ && norm_sq_fx(ray@.direction) >= 1,
                None => closest@ == T_HORIZON as int,
            },
        decreases hit_ables@.len() - i,
    {
        match hit_ables[i].collide(ray, Fx { bits: T_EPS }, closest) {
            Some(collision) => {
                closest = collision.t;
                closest_collision = Some(collision);
            },
            None => {},
        }
        i = i + 1;
    }
    closest_collision
}

/// The colour carried by a ray: recursive light transport with at most
/// `max_depth` bounces. With no depth left the ray yields black; a miss
/// yields the background gradient; an absorbed path yields black; a scatter
/// multiplies the attenuation into the colour of the scattered ray.
pub fn get_ray_color(ray: Ray, world: &Vec<Sphere>, max_depth: usize, rng: &mut Rng) -> (r: Color)
    requires
        scene_wf(world@),
        v3_in_range(ray@.origin, HIT_MAX as int),
        v3_in_range(ray@.direction, DIR_MAX as int),
        rng_wf(old(rng)@),
    ensures
        rng_wf(final(rng)@),
        (r@, final(rng)@) == trace_spec(world@, ray@, max_depth as nat, old(rng)@),
        color_wf(r@),
        max_depth == 0 ==> r@ == (Vec3i { x: 0, y: 0, z: 0 }),
        world@.len() == 0 && max_depth > 0 ==> r@ == background_fx(ray@),
    decreases max_depth,
{
    let black = Vec3::zero();
    if max_depth == 0 {
        return black;
    }
    match get_closest_collision(&ray, world) {
        Some(collision) => {
            match collision.material.scatter(
                rng,
                &ray,
                &collision.pos,
                &collision.normal,
                collision.ray_is_inside,
            ) {
                Some((scattered_ray, scattered_color)) => {
                    let c = get_ray_color(scattered_ray, world, max_depth - 1, rng);
                    proof {
                        lemma_fx_mul_unit(scattered_color@.x, c@.x);
                        lemma_fx_mul_unit(scattered_color@.y, c@.y);
                        lemma_fx_mul_unit(scattered_color@.z, c@.z);
                    }
                    scattered_color.mul(c)
                },
                None => black,
            }
        },
        None => {
            let ns = ray.direction.norm_squared();
            if ns.bits < 1 {
                return black;
            }
            let unit_direction = ray.direction.to_unit_vec();
            let one = Fx { bits: FX_ONE };
            proof {
                lemma_fx_mul_mag(FX_HALF as int, unit_direction@.y + FX_ONE as int, FX_HALF as int,
                    3 * FX_ONE as int);
            }
            let t = Fx { bits: FX_HALF }.mul(unit_direction.y.add(one)).max(Fx { bits: 0 }).min(
                one,
            );
            let white = Vec3 { x: one, y: one, z: one };
            let sky = Vec3 { x: Fx { bits: FX_HALF }, y: Fx { bits: SKY_G }, z: one };
            proof {
                lemma_fx_mul_one(FX_ONE as int - t@);
                lemma_fx_mul_comm(FX_HALF as int, t@);
                lemma_fx_mul_comm(SKY_G as int, t@);
                lemma_fx_mul_comm(FX_ONE as int, t@);
                lemma_fx_mul_le(t@, FX_HALF as int);
                lemma_fx_mul_le(t@, SKY_G as int);
                lemma_fx_mul_le(t@, FX_ONE as int);
            }
            white.scale(one.sub(t)).add(sky.scale(t))
        },
    }
}

/// Whether a ray is within the bounds the tracer accepts: the caller's guard
/// for `get_ray_color`.
pub fn ray_in_bounds(ray: &Ray) -> (r: bool)
    ensures
        r == (v3_in_range(ray@.origin, HIT_MAX as int) && v3_in_range(
            ray@.direction,
            DIR_MAX as int,
        )),
{
    ray.origin.x.bits <= HIT_MAX && ray.origin.x.bits >= -HIT_MAX && ray.origin.y.bits
        <= HIT_MAX && ray.origin.y.bits >= -HIT_MAX && ray.origin.z.bits <= HIT_MAX
        && ray.origin.z.bits >= -HIT_MAX && ray.direction.x.bits <= DIR_MAX
        && ray.direction.x.bits >= -DIR_MAX && ray.direction.y.bits <= DIR_MAX
        && ray.direction.y.bits >= -DIR_MAX && ray.direction.z.bits <= DIR_MAX
        && ray.direction.z.bits >= -DIR_MAX
}

/// Whether every sphere of a scene is representable: the caller's guard for
/// `get_ray_color`.
pub fn scene_in_bounds(world: &Vec<Sphere>) -> (r: bool)
    ensures
        r == scene_wf(world@),
{
    let mut i: usize = 0;
    while i < world.len()
        invariant
            0 <= i <= world@.len(),
            forall|j: int| 0 <= j < i ==> sphere_wf(#[trigger] world@[j]@),
        decreases world@.len() - i,
    {
        if !crate::shape::sphere_in_bounds(&world[i]) {
            return false;
        }
        i = i + 1;
    }
    true
}

/// One tone-mapped output channel: gamma-correct by square root, scale to
/// `[0, 255]` and clamp.
pub open spec fn rgb_channel_spec(c: int, gamma: int) -> int {
    let s = fx_sqrt(fx_max(fx_mul(c, gamma), 0));
    fx_clamp(div_trunc(fx_mul(255 * FX_ONE as int, s), FX_ONE as int), 0, 255)
}

/// Tone-map an accumulated colour to one output pixel: each channel scaled
/// by `gamma_scale`, gamma-corrected by square root, scaled to `[0, 255]`
/// and clamped.
pub fn color_to_rgb(pixel_color: Color, gamma_scale: Fx) -> (r: (u8, u8, u8))
    requires
        v3_in_range(pixel_color@, 0x8000_0000_0000),
        0 <= gamma_scale@ <= FX_ONE as int,
    ensures
        r.0 as int == rgb_channel_spec(pixel_color@.x, gamma_scale@),
        r.1 as int == rgb_channel_spec(pixel_color@.y, gamma_scale@),
        r.2 as int == rgb_channel_spec(pixel_color@.z, gamma_scale@),
{
    (
        rgb_channel(pixel_color.x, gamma_scale),
        rgb_channel(pixel_color.y, gamma_scale),
        rgb_channel(pixel_color.z, gamma_scale),
    )
}

fn rgb_channel(c: Fx, gamma: Fx) -> (r: u8)
    requires
        mag(c@) <= 0x8000_0000_0000,
        0 <= gamma@ <= FX_ONE as int,
    ensures
        r as int == rgb_channel_spec(c@, gamma@),
{
    proof {
        lemma_fx_mul_mag(c@, gamma@, 0x8000_0000_0000, FX_ONE as int);
    }
    let t = c.mul(gamma).max(Fx { bits: 0 });
    let s = t.sqrt();
    proof {
        lemma_sq_le(s@, t@ * (FX_ONE as int), 0x100_0000_0000);
        lemma_fx_mul_mag(255 * FX_ONE as int, s@, 255 * FX_ONE as int, 0x100_0000_0000);
        assert((255 * FX_ONE as int) * s@ >= 0) by (nonlinear_arith)
            requires
                s@ >= 0,
        ;
        crate::fixed::lemma_div_trunc_mag((255 * FX_ONE as int) * s@, FX_ONE as int);
        vstd::arithmetic::div_mod::lemma_div_pos_is_pos((255 * FX_ONE as int) * s@, FX_ONE as int);
    }
    let v = Fx { bits: 255 * FX_ONE }.mul(s);
    proof {
        crate::fixed::lemma_div_trunc_mag(v@, FX_ONE as int);
        vstd::arithmetic::div_mod::lemma_div_pos_is_pos(v@, FX_ONE as int);
    }
    let scaled: u64 = (v.bits as u64) / (FX_ONE as u64);
    if scaled >= 255 {
        255
    } else {
        scaled as u8
    }
}

} // verus!
