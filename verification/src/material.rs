//! Materials and scattering.
//!
//! A material consumes an incoming ray and the collision geometry and either
//! yields an outgoing ray with an attenuation colour, or absorbs the path.
//! The three kinds are a closed enum matched exhaustively; every branch is
//! specified exactly by `scatter_spec` over the generator state.
use crate::fixed::fx_div;
use crate::fixed::fx_max;
use crate::fixed::fx_min;
use crate::fixed::fx_mul;
use crate::fixed::fx_sqrt;
use crate::fixed::lemma_fx_div_mag;
use crate::fixed::lemma_fx_div_pos;
use crate::fixed::lemma_fx_mul_mag;
use crate::fixed::lemma_sq_le;
use crate::fixed::mag;
use crate::fixed::Fx;
use crate::fixed::FX_ONE;
use crate::ray::Ray;
use crate::ray::Rayi;
use crate::rng::rand_fx;
use crate::rng::rand_fx_spec;
use crate::rng::rand_unit_vec;
use crate::rng::rand_unit_spec;
use crate::rng::rng_wf;
use crate::rng::Rng;
use crate::rng::RNG_M;
use crate::vec::almost_zero_fx;
use crate::vec::dot_fx;
use crate::vec::norm_sq_fx;
use crate::vec::unit_fx;
use crate::vec::v3_add;
use crate::vec::v3_in_range;
use crate::vec::v3_scale;
use crate::vec::v3_sub;
use crate::vec::Vec3;
use crate::vec::Vec3i;
use crate::vec::DIR_MAX;
use crate::vec::HIT_MAX;
use crate::vec::UNIT_MAX;
use vstd::prelude::*;

verus! {

/// Refractive index of the ambient medium (vacuum).
pub const VACUUM_REFRACTION: i64 = FX_ONE;

/// Refractive index of window glass (1.52).
pub const WINDOW_GLASS_REFRACTION: i64 = 6528350289;

/// Refractive index of water at 20 degrees Celsius (1.333).
pub const WATER_20_CELSIUS_REFRACTION: i64 = 5725191405;

/// Refractive index of diamond (2.417).
pub const DIAMOND_REFRACTION: i64 = 10380935954;

/// Bound on the bits of a metal fuzziness (128.0).
pub const FUZZ_MAX: i64 = 0x80_0000_0000;

/// Least refractive index a dielectric may carry (1/8).
pub const RI_MIN: i64 = 0x2000_0000;

/// Greatest refractive index a dielectric may carry (8.0).
pub const RI_MAX: i64 = 0x8_0000_0000;

/// Mathematical model of a material.
pub enum MaterialS {
    Lambertian { albedo: Vec3i },
    Metal { albedo: Vec3i, fuzzyness: int },
    Dialectric { refraction_index: int },
}

/// A surface kind: diffuse, specular with jitter, or transmissive.
#[derive(Clone, Copy, PartialEq, Eq, Structural, Debug)]
pub enum Material {
    Lambertian { albedo: Vec3 },
    Metal { albedo: Vec3, fuzzyness: Fx },
    Dialectric { refraction_index: Fx },
}

impl View for Material {
    type V = MaterialS;

    open spec fn view(&self) -> MaterialS {
        match *self {
            Material::Lambertian { albedo } => MaterialS::Lambertian { albedo: albedo@ },
            Material::Metal { albedo, fuzzyness } => MaterialS::Metal {
                albedo: albedo@,
                fuzzyness: fuzzyness@,
            },
            Material::Dialectric { refraction_index } => MaterialS::Dialectric {
                refraction_index: refraction_index@,
            },
        }
    }
}

/// Colour channels sit in `[0, 1]`.
pub open spec fn color_wf(c: Vec3i) -> bool {
    0 <= c.x <= FX_ONE as int && 0 <= c.y <= FX_ONE as int && 0 <= c.z <= FX_ONE as int
}

/// The representable materials: albedo channels in `[0, 1]`, fuzziness and
/// refractive index within the fixed-point working range.
pub open spec fn material_wf(m: MaterialS) -> bool {
    match m {
        MaterialS::Lambertian { albedo } => color_wf(albedo),
        MaterialS::Metal { albedo, fuzzyness } => color_wf(albedo) && mag(fuzzyness)
            <= FUZZ_MAX as int,
        MaterialS::Dialectric { refraction_index } => RI_MIN as int <= refraction_index
            <= RI_MAX as int,
    }
}

/// Whether a material is representable: the caller's guard for `scatter`.
pub fn material_in_bounds(m: &Material) -> (r: bool)
    ensures
        r == material_wf(m@),
{
    match m {
        Material::Lambertian { albedo } => color_in_bounds(albedo),
        Material::Metal { albedo, fuzzyness } => color_in_bounds(albedo) && fuzzyness.bits
            <= FUZZ_MAX && fuzzyness.bits >= -FUZZ_MAX,
        Material::Dialectric { refraction_index } => RI_MIN <= refraction_index.bits
            && refraction_index.bits <= RI_MAX,
    }
}

/// Whether every channel of a colour sits in `[0, 1]`.
pub fn color_in_bounds(c: &Vec3) -> (r: bool)
    ensures
        r == color_wf(c@),
{
    0 <= c.x.bits && c.x.bits <= FX_ONE && 0 <= c.y.bits && c.y.bits <= FX_ONE && 0 <= c.z.bits
        && c.z.bits <= FX_ONE
}

/// Mirror reflection of `v` about `n`: `v - 2 (v . n) n`.
pub open spec fn reflect_fx(v: Vec3i, n: Vec3i) -> Vec3i {
    v3_sub(v, v3_scale(n, 2 * dot_fx(v, n)))
}

/// Refraction of the unit direction `v` at a surface of unit normal `n`,
/// for the given ratio of refractive indices (Snell's law, with the radicand
/// clamped at zero where a degenerate geometry would make it negative).
pub open spec fn refract_fx(v: Vec3i, n: Vec3i, ratio: int) -> Vec3i {
    let cos1 = fx_min(-dot_fx(v, n), FX_ONE as int);
    let cos2 = fx_sqrt(
        fx_max(
            FX_ONE as int - fx_mul(fx_mul(ratio, ratio), FX_ONE as int - fx_mul(cos1, cos1)),
            0,
        ),
    );
    v3_add(v3_scale(v, ratio), v3_scale(n, fx_mul(ratio, cos1) - cos2))
}

/// Fifth power, multiplied up from the left.
pub open spec fn pow5_fx(x: int) -> int {
    fx_mul(fx_mul(fx_mul(fx_mul(x, x), x), x), x)
}

/// The base reflectance `((1 - ratio) / (1 + ratio))^2` of Schlick's
/// approximation.
pub open spec fn schlick_r0(ratio: int) -> int {
    let r = fx_div(FX_ONE as int - ratio, FX_ONE as int + ratio);
    fx_mul(r, r)
}

/// Schlick's approximation of Fresnel reflectance.
pub open spec fn reflectance_fx(cos_theta: int, ratio: int) -> int {
    let r0 = schlick_r0(ratio);
    r0 + fx_mul(FX_ONE as int - r0, pow5_fx(FX_ONE as int - cos_theta))
}

/// At normal incidence the grazing-angle term vanishes exactly: the
/// reflectance is the base reflectance `r0`, for every ratio.
pub proof fn lemma_reflectance_normal_incidence(ratio: int)
    ensures
        reflectance_fx(FX_ONE as int, ratio) == schlick_r0(ratio),
{
    assert(fx_mul(0, 0) == 0);
    assert(pow5_fx(0) == 0);
    assert(fx_mul(FX_ONE as int - schlick_r0(ratio), 0) == 0);
}

/// Mirror reflection about a normal.
pub fn reflect(v: &Vec3, normal: &Vec3) -> (r: Vec3)
    requires
        v3_in_range(v@, UNIT_MAX as int),
        v3_in_range(normal@, UNIT_MAX as int),
    ensures
        r@ == reflect_fx(v@, normal@),
        v3_in_range(r@, 0x80_0000_0000),
{
    proof {
        lemma_fx_mul_mag(v@.x, normal@.x, UNIT_MAX as int, UNIT_MAX as int);
        lemma_fx_mul_mag(v@.y, normal@.y, UNIT_MAX as int, UNIT_MAX as int);
        lemma_fx_mul_mag(v@.z, normal@.z, UNIT_MAX as int, UNIT_MAX as int);
        lemma_fx_mul_mag(normal@.x, 2 * dot_fx(v@, normal@), UNIT_MAX as int, 0x18_0000_0000);
        lemma_fx_mul_mag(normal@.y, 2 * dot_fx(v@, normal@), UNIT_MAX as int, 0x18_0000_0000);
        lemma_fx_mul_mag(normal@.z, 2 * dot_fx(v@, normal@), UNIT_MAX as int, 0x18_0000_0000);
    }
    let d = v.dot(normal);
    let k = d.add(d);
    v.sub(normal.scale(k))
}

/// Refraction of a unit direction through a surface (Snell's law).
pub fn refract(v: &Vec3, normal: &Vec3, refraction_ratio: Fx) -> (r: Vec3)
    requires
        v3_in_range(v@, UNIT_MAX as int),
        v3_in_range(normal@, UNIT_MAX as int),
        0 <= refraction_ratio@ <= RI_MAX as int,
    ensures
        r@ == refract_fx(v@, normal@, refraction_ratio@),
        v3_in_range(r@, DIR_MAX as int),
{
    let ratio = refraction_ratio;
    proof {
        lemma_fx_mul_mag(v@.x, normal@.x, UNIT_MAX as int, UNIT_MAX as int);
        lemma_fx_mul_mag(v@.y, normal@.y, UNIT_MAX as int, UNIT_MAX as int);
        lemma_fx_mul_mag(v@.z, normal@.z, UNIT_MAX as int, UNIT_MAX as int);
    }
    let d = v.dot(normal);
    let cos1 = d.neg().min(Fx { bits: FX_ONE });
    proof {
        lemma_fx_mul_mag(cos1@, cos1@, 0x10_0000_0000, 0x10_0000_0000);
        lemma_fx_mul_mag(ratio@, ratio@, RI_MAX as int, RI_MAX as int);
        crate::vec::lemma_fx_square_nonneg(cos1@);
        crate::vec::lemma_fx_square_nonneg(ratio@);
    }
    let cos1_sq = cos1.mul(cos1);
    let one = Fx { bits: FX_ONE };
    let inner = one.sub(cos1_sq);
    let ratio_sq = ratio.mul(ratio);
    proof {
        lemma_fx_mul_mag(ratio_sq@, inner@, 0x40_0000_0000, 0x200_0000_0000);
    }
    let radicand = one.sub(ratio_sq.mul(inner)).max(Fx { bits: 0 });
    let cos2 = radicand.sqrt();
    proof {
        lemma_sq_le(cos2@, radicand@ * (FX_ONE as int), 0x100_0000_0000);
        lemma_fx_mul_mag(ratio@, cos1@, RI_MAX as int, 0x10_0000_0000);
        lemma_fx_mul_mag(v@.x, ratio@, UNIT_MAX as int, RI_MAX as int);
        lemma_fx_mul_mag(v@.y, ratio@, UNIT_MAX as int, RI_MAX as int);
        lemma_fx_mul_mag(v@.z, ratio@, UNIT_MAX as int, RI_MAX as int);
    }
    let k = ratio.mul(cos1).sub(cos2);
    proof {
        lemma_fx_mul_mag(normal@.x, k@, UNIT_MAX as int, 0x200_0000_0000);
        lemma_fx_mul_mag(normal@.y, k@, UNIT_MAX as int, 0x200_0000_0000);
        lemma_fx_mul_mag(normal@.z, k@, UNIT_MAX as int, 0x200_0000_0000);
    }
    v.scale(ratio).add(normal.scale(k))
}

/// Schlick's approximation of Fresnel reflectance.
pub fn reflectance(cos_theta: Fx, refraction_ratio: Fx) -> (r: Fx)
    requires
        mag(cos_theta@) <= 0x10_0000_0000,
        0 <= refraction_ratio@ <= RI_MAX as int,
    ensures
        r@ == reflectance_fx(cos_theta@, refraction_ratio@),
{
    let one = Fx { bits: FX_ONE };
    let denom = one.add(refraction_ratio);
    proof {
        let ma = FX_ONE as int + refraction_ratio@;
        lemma_fx_div_mag(FX_ONE as int - refraction_ratio@, denom@, ma, ma);
        vstd::arithmetic::div_mod::lemma_div_multiples_vanish(FX_ONE as int, ma);
    }
    let r = one.sub(refraction_ratio).div(denom);
    proof {
        lemma_fx_mul_mag(r@, r@, FX_ONE as int, FX_ONE as int);
        crate::vec::lemma_fx_square_nonneg(r@);
    }
    let r0 = r.mul(r);
    let x = one.sub(cos_theta);
    proof {
        lemma_fx_mul_mag(x@, x@, 0x20_0000_0000, 0x20_0000_0000);
        lemma_fx_mul_mag(fx_mul(x@, x@), x@, 0x400_0000_0000, 0x20_0000_0000);
        lemma_fx_mul_mag(fx_mul(fx_mul(x@, x@), x@), x@, 0x8000_0000_0000, 0x20_0000_0000);
        lemma_fx_mul_mag(
            fx_mul(fx_mul(fx_mul(x@, x@), x@), x@),
            x@,
            0x10_0000_0000_0000,
            0x20_0000_0000,
        );
        lemma_fx_mul_mag(FX_ONE as int - fx_mul(r@, r@), pow5_fx(x@), FX_ONE as int,
            0x200_0000_0000_0000);
    }
    let p5 = x.mul(x).mul(x).mul(x).mul(x);
    r0.add(one.sub(r0).mul(p5))
}

/// What `scatter` returns, as a value of the model.
pub open spec fn scatter_view(r: Option<(Ray, Vec3)>) -> Option<(Rayi, Vec3i)> {
    match r {
        Some((ray, att)) => Some((ray@, att@)),
        None => None,
    }
}

/// The exact behaviour of `Material::scatter`: the optional outgoing ray and
/// attenuation, and the generator state after the draws the branch makes.
pub open spec fn scatter_spec(
    m: MaterialS,
    ray: Rayi,
    pos: Vec3i,
    normal: Vec3i,
    inside: bool,
    s: int,
) -> (Option<(Rayi, Vec3i)>, int) {
    match m {
        MaterialS::Lambertian { albedo } => {
            let (ru, s2) = rand_unit_spec(s, RNG_M as nat);
            let d0 = if dot_fx(normal, ru) > 0 {
                v3_add(normal, ru)
            } else {
                v3_sub(normal, ru)
            };
            let d = if almost_zero_fx(d0) {
                normal
            } else {
                d0
            };
            (Some((Rayi { origin: pos, direction: d }, albedo)), s2)
        },
        MaterialS::Metal { albedo, fuzzyness } => {
            let v = unit_fx(ray.direction);
            let refl = reflect_fx(v, normal);
            let (ru, s2) = rand_unit_spec(s, RNG_M as nat);
            let fru = v3_scale(ru, fx_min(fuzzyness, FX_ONE as int));
            let d = if dot_fx(normal, fru) > 0 {
                v3_add(refl, fru)
            } else {
                v3_sub(refl, fru)
            };
            if dot_fx(d, normal) > 0 {
                (Some((Rayi { origin: pos, direction: d }, albedo)), s2)
            } else {
                (None, s2)
            }
        },
        MaterialS::Dialectric { refraction_index } => {
            let ratio = if inside {
                refraction_index
            } else {
                fx_div(FX_ONE as int, refraction_index)
            };
            let u = unit_fx(ray.direction);
            let cos1 = fx_min(-dot_fx(u, normal), FX_ONE as int);
            let sin1 = fx_sqrt(fx_max(FX_ONE as int - fx_mul(cos1, cos1), 0));
            let cannot_refract = fx_mul(ratio, sin1) > FX_ONE as int;
            let (should_reflect, s2) = if cannot_refract {
                (true, s)
            } else {
                let (draw, s3) = rand_fx_spec(s, 0, FX_ONE as int);
                (reflectance_fx(cos1, ratio) > draw, s3)
            };
            let d = if should_reflect {
                reflect_fx(u, normal)
            } else {
                refract_fx(u, normal, ratio)
            };
            let white = Vec3i { x: FX_ONE as int, y: FX_ONE as int, z: FX_ONE as int };
            (Some((Rayi { origin: pos, direction: d }, white)), s2)
        },
    }
}

impl Material {
    /// Scatter an incoming ray at a collision. `None` means the path is
    /// absorbed. A direction of zero fixed-point squared norm cannot be
    /// normalized, so it is excluded by precondition; `collide` never
    /// reports a hit for such a ray.
    #[verifier::rlimit(60)]
    pub fn scatter(
        &self,
        rng: &mut Rng,
        input_ray: &Ray,
        reflection_point: &Vec3,
        reflection_normal: &Vec3,
        ray_is_inside: bool,
    ) -> (r: Option<(Ray, Vec3)>)
        requires
            material_wf(self@),
            rng_wf(old(rng)@),
            v3_in_range(input_ray@.direction, DIR_MAX as int),
            norm_sq_fx(input_ray@.direction) >= 1,
            v3_in_range(reflection_point@, HIT_MAX as int),
            v3_in_range(reflection_normal@, UNIT_MAX as int),
        ensures
            rng_wf(final(rng)@),
            (scatter_view(r), final(rng)@) == scatter_spec(
                self@,
                input_ray@,
                reflection_point@,
                reflection_normal@,
                ray_is_inside,
                old(rng)@,
            ),
            match r {
                Some((ray2, att)) => ray2@.origin == reflection_point@ && v3_in_range(
                    ray2@.direction,
                    DIR_MAX as int,
                ) && color_wf(att@),
                None => true,
            },
    {
        match *self {
            Material::Lambertian { albedo } => {
                let random_unit_vec = rand_unit_vec(rng);
                let mut scatter_direction = if reflection_normal.dot(&random_unit_vec).bits > 0 {
                    reflection_normal.add(random_unit_vec)
                } else {
                    reflection_normal.sub(random_unit_vec)
                };
                if scatter_direction.almost_zero() {
                    scatter_direction = *reflection_normal;
                }
                let scattered_ray = Ray { origin: *reflection_point, direction: scatter_direction };
                Some((scattered_ray, albedo))
            },
            Material::Metal { albedo, fuzzyness } => {
                let v = input_ray.direction.to_unit_vec();
                let reflection = reflect(&v, reflection_normal);
                let f = fuzzyness.min(Fx { bits: FX_ONE });
                let ru = rand_unit_vec(rng);
                proof {
                    lemma_fx_mul_mag(ru@.x, fx_min(fuzzyness@, FX_ONE as int), UNIT_MAX as int,
                        FUZZ_MAX as int);
                    lemma_fx_mul_mag(ru@.y, fx_min(fuzzyness@, FX_ONE as int), UNIT_MAX as int,
                        FUZZ_MAX as int);
                    lemma_fx_mul_mag(ru@.z, fx_min(fuzzyness@, FX_ONE as int), UNIT_MAX as int,
                        FUZZ_MAX as int);
                }
                let fuzzy_random_unit_vec = ru.scale(f);
                let scatter_direction = if reflection_normal.dot(&fuzzy_random_unit_vec).bits > 0 {
                    reflection.add(fuzzy_random_unit_vec)
                } else {
                    reflection.sub(fuzzy_random_unit_vec)
                };
                let scattered_ray = Ray { origin: *reflection_point, direction: scatter_direction };
                if scattered_ray.direction.dot(reflection_normal).bits > 0 {
                    Some((scattered_ray, albedo))
                } else {
                    None
                }
            },
            Material::Dialectric { refraction_index } => {
                let attenuation = Vec3 {
                    x: Fx { bits: FX_ONE },
                    y: Fx { bits: FX_ONE },
                    z: Fx { bits: FX_ONE },
                };
                proof {
                    lemma_fx_div_mag(FX_ONE as int, refraction_index@, FX_ONE as int, RI_MIN as int);
                    lemma_fx_div_pos(FX_ONE as int, refraction_index@);
                }
                let refraction_ratio = if ray_is_inside {
                    refraction_index
                } else {
                    Fx { bits: FX_ONE }.div(refraction_index)
                };
                let unit_direction = input_ray.direction.to_unit_vec();
                proof {
                    lemma_fx_mul_mag(unit_direction@.x, reflection_normal@.x, UNIT_MAX as int,
                        UNIT_MAX as int);
                    lemma_fx_mul_mag(unit_direction@.y, reflection_normal@.y, UNIT_MAX as int,
                        UNIT_MAX as int);
                    lemma_fx_mul_mag(unit_direction@.z, reflection_normal@.z, UNIT_MAX as int,
                        UNIT_MAX as int);
                }
                let cos_theta = unit_direction.dot(reflection_normal).neg().min(
                    Fx { bits: FX_ONE },
                );
                proof {
                    lemma_fx_mul_mag(cos_theta@, cos_theta@, 0x10_0000_0000, 0x10_0000_0000);
                    crate::vec::lemma_fx_square_nonneg(cos_theta@);
                }
                let sin_theta = Fx { bits: FX_ONE }.sub(cos_theta.mul(cos_theta)).max(
                    Fx { bits: 0 },
                ).sqrt();
                proof {
                    lemma_sq_le(sin_theta@, FX_ONE as int * (FX_ONE as int), FX_ONE as int);
                    lemma_fx_mul_mag(refraction_ratio@, sin_theta@, RI_MAX as int, FX_ONE as int);
                }
                let cannot_refract = refraction_ratio.mul(sin_theta).bits > FX_ONE;
                let should_reflect = if cannot_refract {
                    true
                } else {
                    let reflection_coefficient = reflectance(cos_theta, refraction_ratio);
                    let draw = rand_fx(rng, Fx { bits: 0 }, Fx { bits: FX_ONE });
                    reflection_coefficient.bits > draw.bits
                };
                let direction = if should_reflect {
                    reflect(&unit_direction, reflection_normal)
                } else {
                    refract(&unit_direction, reflection_normal, refraction_ratio)
                };
                Some((Ray { origin: *reflection_point, direction }, attenuation))
            },
        }
    }
}

} // verus!
