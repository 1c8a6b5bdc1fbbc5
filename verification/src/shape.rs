//! Spheres and ray-sphere intersection.
//!
//! `collide` solves the quadratic `|O + tD - C|^2 = r^2` and reports the
//! nearest root inside the caller's `[t_min, t_max]` window, with a unit-ish
//! normal always oriented against the incoming ray. A negative radius models
//! an inverted (hollow) sphere: the algebra is radius-squared based, and the
//! normal `(P - C) / r` then points inward, exactly as the sign demands.
use crate::fixed::fx_div;
use crate::fixed::fx_mul;
use crate::fixed::isqrt_u128;
use crate::fixed::lemma_fx_mul_mag;
use crate::fixed::lemma_mul_mag;
use crate::fixed::lemma_sq_le;
use crate::fixed::lemma_sqrt_floor_unique;
use crate::fixed::mag;
use crate::fixed::sqrt_floor;
use crate::fixed::Fx;
use crate::fixed::FX_ONE;
use crate::material::material_wf;
use crate::material::Material;
use crate::material::MaterialS;
use crate::ray::ray_at;
use crate::ray::Ray;
use crate::ray::Rayi;
use crate::ray::T_HORIZON;
use crate::vec::dot_e;
use crate::vec::dot_fx;
use crate::vec::lemma_dot_neg;
use crate::vec::lemma_norm_sq_neg;
use crate::vec::lemma_norm_sq_nonneg;
use crate::vec::norm_sq_fx;
use crate::vec::scale_e;
use crate::vec::v3_in_range;
use crate::vec::v3_neg;
use crate::vec::v3_sub;
use crate::vec::Vec3;
use crate::vec::Vec3i;
use crate::vec::DIR_MAX;
use crate::vec::HIT_MAX;
use crate::vec::UNIT_MAX;
use crate::vec::WORLD_MAX;
use vstd::prelude::*;

verus! {

/// Mathematical model of a collision record.
pub struct CollisionS {
    pub pos: Vec3i,
    pub normal: Vec3i,
    pub ray_is_inside: bool,
    pub t: int,
    pub material: MaterialS,
}

/// Where and how a ray met a shape. The normal always opposes the incoming
/// ray; `ray_is_inside` says whether the ray started on the far side of the
/// surface. The material is a copied value.
#[derive(Clone, Copy, PartialEq, Eq, Structural, Debug)]
pub struct Collision {
    pub pos: Vec3,
    pub normal: Vec3,
    pub ray_is_inside: bool,
    pub t: Fx,
    pub material: Material,
}

impl View for Collision {
    type V = CollisionS;

    open spec fn view(&self) -> CollisionS {
        CollisionS {
            pos: self.pos@,
            normal: self.normal@,
            ray_is_inside: self.ray_is_inside,
            t: self.t@,
            material: self.material@,
        }
    }
}

/// Mathematical model of a sphere.
pub struct SphereS {
    pub center: Vec3i,
    pub radius: int,
    pub material: MaterialS,
}

/// A sphere; the radius may be negative for a hollow shell.
#[derive(Clone, Copy, PartialEq, Eq, Structural, Debug)]
pub struct Sphere {
    pub center: Vec3,
    pub radius: Fx,
    pub material: Material,
}

impl View for Sphere {
    type V = SphereS;

    open spec fn view(&self) -> SphereS {
        SphereS { center: self.center@, radius: self.radius@, material: self.material@ }
    }
}

/// How far the squared fixed-point norm of a reported normal may deviate
/// from 1 (about 1.6 percent).
pub const NORMAL_TOL: i64 = 0x400_0000;

/// A representable sphere: it lies wholly inside the world box (center
/// magnitude plus radius magnitude within bounds on every axis), has a
/// nonzero radius and a well-formed material.
pub open spec fn sphere_wf(s: SphereS) -> bool {
    &&& v3_in_range(s.center, WORLD_MAX as int)
    &&& s.radius != 0
    &&& mag(s.radius) <= WORLD_MAX as int
    &&& mag(s.center.x) + mag(s.radius) <= WORLD_MAX as int
    &&& mag(s.center.y) + mag(s.radius) <= WORLD_MAX as int
    &&& mag(s.center.z) + mag(s.radius) <= WORLD_MAX as int
    &&& material_wf(s.material)
}

/// The discriminant of the intersection quadratic, on the fixed-point
/// coefficients (kept at doubled scale: bits of `FX_ONE^2`).
pub open spec fn collide_disc(s: SphereS, ray: Rayi) -> int {
    let delta = v3_sub(ray.origin, s.center);
    let a = norm_sq_fx(ray.direction);
    let half_b = dot_fx(delta, ray.direction);
    let c = norm_sq_fx(delta) - fx_mul(s.radius, s.radius);
    half_b * half_b - a * c
}

/// The collision record for an accepted root `t`, or `None` for a hit the
/// fixed-point representation cannot carry: a hit point beyond three times
/// the scene box, or a normal whose squared norm is not within `NORMAL_TOL`
/// of 1. Neither cut can fire for a hit lying on a well-formed sphere; they
/// exclude only numerically degenerate roots (for example from a direction
/// whose squared norm truncates to a few bits).
pub open spec fn collide_hit_spec(s: SphereS, ray: Rayi, t: int) -> Option<CollisionS> {
    let pos = ray_at(ray, t);
    let outward = Vec3i {
        x: fx_div(pos.x - s.center.x, s.radius),
        y: fx_div(pos.y - s.center.y, s.radius),
        z: fx_div(pos.z - s.center.z, s.radius),
    };
    if !v3_in_range(pos, HIT_MAX as int) {
        None
    } else if !v3_in_range(outward, UNIT_MAX as int) {
        None
    } else if mag(norm_sq_fx(outward) - FX_ONE as int) > NORMAL_TOL as int {
        None
    } else {
        let inside = dot_fx(ray.direction, outward) >= 0;
        Some(
            CollisionS {
                pos,
                normal: if inside {
                    v3_neg(outward)
                } else {
                    outward
                },
                ray_is_inside: inside,
                t,
                material: s.material,
            },
        )
    }
}

/// The exact behaviour of `Sphere::collide`. A direction of zero fixed-point
/// squared norm meets nothing.
pub open spec fn collide_spec(s: SphereS, ray: Rayi, t_min: int, t_max: int) -> Option<
    CollisionS,
> {
    let a = norm_sq_fx(ray.direction);
    let delta = v3_sub(ray.origin, s.center);
    let half_b = dot_fx(delta, ray.direction);
    if a == 0 {
        None
    } else if collide_disc(s, ray) < 0 {
        None
    } else {
        let sq = sqrt_floor(collide_disc(s, ray));
        let root1 = fx_div(-half_b - sq, a);
        let root2 = fx_div(-half_b + sq, a);
        if t_min <= root1 && root1 <= t_max {
            collide_hit_spec(s, ray, root1)
        } else if t_min <= root2 && root2 <= t_max {
            collide_hit_spec(s, ray, root2)
        } else {
            None
        }
    }
}

/// What `collide` returns, as a value of the model.
pub open spec fn collide_view(r: Option<Collision>) -> Option<CollisionS> {
    match r {
        Some(c) => Some(c@),
        None => None,
    }
}

impl Sphere {
    /// The nearest intersection of `ray` with this sphere whose parameter
    /// lies in `[t_min, t_max]` (boundaries included), if any.
    #[verifier::rlimit(80)]
    pub fn collide(&self, ray: &Ray, t_min: Fx, t_max: Fx) -> (r: Option<Collision>)
        requires
            sphere_wf(self@),
            v3_in_range(ray@.origin, HIT_MAX as int),
            v3_in_range(ray@.direction, DIR_MAX as int),
            0 <= t_min@ <= t_max@ <= T_HORIZON as int,
        ensures
            collide_view(r) == collide_spec(self@, ray@, t_min@, t_max@),
            collide_disc(self@, ray@) < 0 ==> r matches None,
            r matches Some(_) ==> norm_sq_fx(ray@.direction) >= 1,
            match r {
                Some(col) => t_min@ <= col@.t <= t_max@ && dot_fx(ray@.direction, col@.normal)
                    <= 0 && v3_in_range(col@.pos, HIT_MAX as int) && v3_in_range(
                    col@.normal,
                    UNIT_MAX as int,
                ) && mag(norm_sq_fx(col@.normal) - FX_ONE as int) <= NORMAL_TOL as int
                    && col@.material == self@.material,
                None => true,
            },
    {
        let delta = ray.origin.sub(self.center);
        proof {
            lemma_norm_sq_nonneg(ray@.direction);
            lemma_fx_mul_mag(ray@.direction.x, ray@.direction.x, DIR_MAX as int, DIR_MAX as int);
            lemma_fx_mul_mag(ray@.direction.y, ray@.direction.y, DIR_MAX as int, DIR_MAX as int);
            lemma_fx_mul_mag(ray@.direction.z, ray@.direction.z, DIR_MAX as int, DIR_MAX as int);
            lemma_fx_mul_mag(delta@.x, ray@.direction.x, 4 * WORLD_MAX as int, DIR_MAX as int);
            lemma_fx_mul_mag(delta@.y, ray@.direction.y, 4 * WORLD_MAX as int, DIR_MAX as int);
            lemma_fx_mul_mag(delta@.z, ray@.direction.z, 4 * WORLD_MAX as int, DIR_MAX as int);
            lemma_fx_mul_mag(delta@.x, delta@.x, 4 * WORLD_MAX as int, 4 * WORLD_MAX as int);
            lemma_fx_mul_mag(delta@.y, delta@.y, 4 * WORLD_MAX as int, 4 * WORLD_MAX as int);
            lemma_fx_mul_mag(delta@.z, delta@.z, 4 * WORLD_MAX as int, 4 * WORLD_MAX as int);
            lemma_fx_mul_mag(self@.radius, self@.radius, WORLD_MAX as int, WORLD_MAX as int);
        }
        let a = ray.direction.norm_squared();
        if a.bits == 0 {
            return None;
        }
        let half_b = delta.dot(&ray.direction);
        let c = delta.norm_squared().sub(self.radius.mul(self.radius));
        proof {
            lemma_mul_mag(half_b@, half_b@, 0x800_0000_0000_0000, 0x800_0000_0000_0000);
            lemma_mul_mag(a@, c@, 0x100_0000_0000_0000, 0x4000_0000_0000_0000);
        }
        let discriminant: i128 = (half_b.bits as i128) * (half_b.bits as i128) - (a.bits as i128)
            * (c.bits as i128);
        if discriminant < 0 {
            return None;
        }
        let sq128: u128 = isqrt_u128(discriminant as u128);
        proof {
            lemma_sqrt_floor_unique(discriminant as int, sq128 as int);
            lemma_sq_le(sq128 as int, discriminant as int, 0x1000_0000_0000_0000);
        }
        let sq = Fx { bits: sq128 as i64 };
        let mut root: Option<Fx> = None;
        match half_b.neg().sub(sq).div_checked(a) {
            Some(t1) => {
                if t_min.bits <= t1.bits && t1.bits <= t_max.bits {
                    root = Some(t1);
                }
            },
            None => {},
        }
        proof {
            let root1 = fx_div(-half_b@ - sq@, a@);
            assert(root matches Some(t) ==> t@ == root1 && t_min@ <= root1 <= t_max@);
            assert(root matches None ==> !(t_min@ <= root1 <= t_max@));
        }
        if root.is_none() {
            match sq.sub(half_b).div_checked(a) {
                Some(t2) => {
                    if t_min.bits <= t2.bits && t2.bits <= t_max.bits {
                        root = Some(t2);
                    }
                },
                None => {},
            }
            proof {
                let root2 = fx_div(-half_b@ + sq@, a@);
                assert(sq@ - half_b@ == -half_b@ + sq@);
                assert(root matches Some(t) ==> t@ == root2 && t_min@ <= root2 <= t_max@);
                assert(root matches None ==> !(t_min@ <= root2 <= t_max@));
            }
        }
        let t = match root {
            Some(t) => t,
            None => {
                return None;
            },
        };
        let pos = ray.at(t);
        let in_hit_box = pos.x.bits <= HIT_MAX && pos.x.bits >= -HIT_MAX && pos.y.bits <= HIT_MAX
            && pos.y.bits >= -HIT_MAX && pos.z.bits <= HIT_MAX && pos.z.bits >= -HIT_MAX;
        if !in_hit_box {
            return None;
        }
        let q = pos.sub(self.center);
        let ox = match q.x.div_checked(self.radius) {
            Some(v) => v,
            None => {
                return None;
            },
        };
        let oy = match q.y.div_checked(self.radius) {
            Some(v) => v,
            None => {
                return None;
            },
        };
        let oz = match q.z.div_checked(self.radius) {
            Some(v) => v,
            None => {
                return None;
            },
        };
        let outward = Vec3 { x: ox, y: oy, z: oz };
        let in_unit = ox.bits <= UNIT_MAX && ox.bits >= -UNIT_MAX && oy.bits <= UNIT_MAX
            && oy.bits >= -UNIT_MAX && oz.bits <= UNIT_MAX && oz.bits >= -UNIT_MAX;
        if !in_unit {
            return None;
        }
        let ns = outward.norm_squared();
        let deviation = ns.bits - FX_ONE;
        if deviation > NORMAL_TOL || deviation < -NORMAL_TOL {
            return None;
        }
        let d = ray.direction.dot(&outward);
        let ray_is_inside_sphere: bool = d.bits >= 0;
        let normal = if ray_is_inside_sphere {
            proof {
                lemma_dot_neg(ray@.direction, outward@);
                lemma_norm_sq_neg(outward@);
            }
            outward.neg()
        } else {
            outward
        };
        Some(
            Collision {
                pos,
                normal,
                ray_is_inside: ray_is_inside_sphere,
                t,
                material: self.material,
            },
        )
    }
}

/// A ray sent from a point at distance `d` straight toward the center of a
/// sphere of radius `r` meets the intersection quadratic exactly at the
/// parameters `(d - r) / s` and `(d + r) / s`, and the discriminant is the
/// perfect square `(s * r)^2`. Here `dir` is the ray direction of norm `s`
/// and `e = origin - center = -(d / s) dir`, all in exact integer
/// arithmetic; at unit scale (`s == 1`) the two roots are `d - r` and
/// `d + r`.
/// Whether a sphere is representable: the caller's guard for `collide`.
pub fn sphere_in_bounds(s: &Sphere) -> (r: bool)
    ensures
        r == sphere_wf(s@),
{
    let ranged = s.center.x.bits <= WORLD_MAX && s.center.x.bits >= -WORLD_MAX && s.center.y.bits
        <= WORLD_MAX && s.center.y.bits >= -WORLD_MAX && s.center.z.bits <= WORLD_MAX
        && s.center.z.bits >= -WORLD_MAX && s.radius.bits != 0 && s.radius.bits <= WORLD_MAX
        && s.radius.bits >= -WORLD_MAX;
    if !ranged {
        return false;
    }
    let rm = if s.radius.bits < 0 {
        -s.radius.bits
    } else {
        s.radius.bits
    };
    let cx = if s.center.x.bits < 0 {
        -s.center.x.bits
    } else {
        s.center.x.bits
    };
    let cy = if s.center.y.bits < 0 {
        -s.center.y.bits
    } else {
        s.center.y.bits
    };
    let cz = if s.center.z.bits < 0 {
        -s.center.z.bits
    } else {
        s.center.z.bits
    };
    cx + rm <= WORLD_MAX && cy + rm <= WORLD_MAX && cz + rm <= WORLD_MAX
        && crate::material::material_in_bounds(&s.material)
}

/// One dot-product term under the colinearity `e * s == dir * (-d)`.
proof fn lemma_colinear_dot_term(s: int, ex: int, dx: int, d: int)
    by (nonlinear_arith)
    requires
        ex * s == dx * (-d),
    ensures
        s * (ex * dx) == -d * (dx * dx),
{
}

/// One squared term under the colinearity `e * s == dir * (-d)`.
proof fn lemma_colinear_sq_term(s: int, ex: int, dx: int, d: int)
    by (nonlinear_arith)
    requires
        ex * s == dx * (-d),
    ensures
        (s * s) * (ex * ex) == (d * d) * (dx * dx),
{
}

pub proof fn lemma_ray_toward_sphere_roots(dir: Vec3i, e: Vec3i, s: int, d: int, rad: int)
    requires
        dot_e(dir, dir) == s * s,
        s > 0,
        scale_e(e, s) == scale_e(dir, -d),
    ensures
        dot_e(e, dir) == -(d * s),
        dot_e(e, e) == d * d,
        s * s * ((d - rad) * (d - rad)) + 2 * dot_e(e, dir) * (s * (d - rad)) + (dot_e(e, e) - rad
            * rad) * (s * s) == 0,
        s * s * ((d + rad) * (d + rad)) + 2 * dot_e(e, dir) * (s * (d + rad)) + (dot_e(e, e) - rad
            * rad) * (s * s) == 0,
        dot_e(e, dir) * dot_e(e, dir) - dot_e(dir, dir) * (dot_e(e, e) - rad * rad) == (s * rad) * (
        s * rad),
{
    let ed = dot_e(e, dir);
    let ee = dot_e(e, e);
    let t1 = e.x * dir.x;
    let t2 = e.y * dir.y;
    let t3 = e.z * dir.z;
    lemma_colinear_dot_term(s, e.x, dir.x, d);
    lemma_colinear_dot_term(s, e.y, dir.y, d);
    lemma_colinear_dot_term(s, e.z, dir.z, d);
    assert(s * ed == s * t1 + s * t2 + s * t3) by (nonlinear_arith)
        requires
            ed == t1 + t2 + t3,
    ;
    assert(-d * (dir.x * dir.x) + -d * (dir.y * dir.y) + -d * (dir.z * dir.z) == -d * (s * s))
        by (nonlinear_arith)
        requires
            s * s == dir.x * dir.x + dir.y * dir.y + dir.z * dir.z,
    ;
    assert(ed == -(d * s)) by (nonlinear_arith)
        requires
            s * ed == -d * (s * s),
            s > 0,
    ;
    let u1 = e.x * e.x;
    let u2 = e.y * e.y;
    let u3 = e.z * e.z;
    lemma_colinear_sq_term(s, e.x, dir.x, d);
    lemma_colinear_sq_term(s, e.y, dir.y, d);
    lemma_colinear_sq_term(s, e.z, dir.z, d);
    assert((s * s) * ee == (s * s) * u1 + (s * s) * u2 + (s * s) * u3) by (nonlinear_arith)
        requires
            ee == u1 + u2 + u3,
    ;
    assert((d * d) * (dir.x * dir.x) + (d * d) * (dir.y * dir.y) + (d * d) * (dir.z * dir.z) == (d
        * d) * (s * s)) by (nonlinear_arith)
        requires
            s * s == dir.x * dir.x + dir.y * dir.y + dir.z * dir.z,
    ;
    assert(ee == d * d) by (nonlinear_arith)
        requires
            (s * s) * ee == (d * d) * (s * s),
            s > 0,
    ;
    assert(s * s * ((d - rad) * (d - rad)) + 2 * (-(d * s)) * (s * (d - rad)) + (d * d - rad * rad)
        * (s * s) == 0) by (nonlinear_arith);
    assert(s * s * ((d + rad) * (d + rad)) + 2 * (-(d * s)) * (s * (d + rad)) + (d * d - rad * rad)
        * (s * s) == 0) by (nonlinear_arith);
    assert((-(d * s)) * (-(d * s)) - (s * s) * (d * d - rad * rad) == (s * rad) * (s * rad))
        by (nonlinear_arith);
}

} // verus!
