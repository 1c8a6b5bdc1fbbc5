//! The camera: a world-space ray for each normalized image coordinate, with
//! depth-of-field blur from a lens of nonzero radius.
//!
//! The camera is constructed once from look-from/look-at/up and the viewing
//! parameters, and is immutable thereafter. The vertical field of view
//! enters through the tangent of its half angle, which the caller computes.
use crate::fixed::fx_div;
use crate::fixed::fx_mul;
use crate::fixed::lemma_fx_div_mag;
use crate::fixed::lemma_fx_div_pos;
use crate::fixed::lemma_fx_mul_mag;
use crate::fixed::lemma_fx_mul_nonneg;
use crate::fixed::Fx;
use crate::fixed::FX_ONE;
use crate::ray::Ray;
use crate::ray::Rayi;
use crate::rng::rand_fx;
use crate::rng::rand_fx_spec;
use crate::rng::rng_wf;
use crate::rng::Rng;
use crate::vec::cross_fx;
use crate::vec::norm_sq_fx;
use crate::vec::unit_fx;
use crate::vec::v3_add;
use crate::vec::v3_in_range;
use crate::vec::v3_neg;
use crate::vec::v3_scale;
use crate::vec::v3_sub;
use crate::vec::Vec3;
use crate::vec::Vec3i;
use crate::vec::DIR_MAX;
use crate::vec::HIT_MAX;
use crate::vec::UNIT_MAX;
use crate::vec::VEC_OP_MAX;
use crate::vec::WORLD_MAX;
use crate::FX_HALF;
use vstd::prelude::*;

verus! {

/// Mathematical model of a camera.
pub struct CameraS {
    pub origin: Vec3i,
    pub lower_left_corner: Vec3i,
    pub horizontal: Vec3i,
    pub vertical: Vec3i,
    pub u: Vec3i,
    pub v: Vec3i,
    pub w: Vec3i,
    pub lens_radius: int,
}

/// A camera: its position, viewport spans, orthonormal-ish basis and lens.
#[derive(Clone, Copy, PartialEq, Eq, Structural, Debug)]
pub struct Camera {
    pub origin: Vec3,
    pub lower_left_corner: Vec3,
    pub horizontal: Vec3,
    pub vertical: Vec3,
    pub u: Vec3,
    pub v: Vec3,
    pub w: Vec3,
    pub lens_radius: Fx,
}

impl View for Camera {
    type V = CameraS;

    open spec fn view(&self) -> CameraS {
        CameraS {
            origin: self.origin@,
            lower_left_corner: self.lower_left_corner@,
            horizontal: self.horizontal@,
            vertical: self.vertical@,
            u: self.u@,
            v: self.v@,
            w: self.w@,
            lens_radius: self.lens_radius@,
        }
    }
}

/// Field bounds under which `send_ray_towards` cannot overflow and always
/// yields a ray within the tracer's working range; `setup_camera`
/// establishes them.
pub open spec fn camera_wf(c: CameraS) -> bool {
    &&& v3_in_range(c.origin, WORLD_MAX as int)
    &&& v3_in_range(c.u, UNIT_MAX as int)
    &&& v3_in_range(c.v, 0x8_0000_0000)
    &&& v3_in_range(c.w, UNIT_MAX as int)
    &&& v3_in_range(c.horizontal, 0x80_0000_0000)
    &&& v3_in_range(c.vertical, 0x200_0000_0000)
    &&& v3_in_range(c.lower_left_corner, 0x2000_0000_0000)
    &&& v3_in_range(v3_sub(c.lower_left_corner, c.origin), 0x400_0000_0000)
    &&& 0 <= c.lens_radius <= FX_ONE as int
}

/// The inputs `setup_camera` accepts: vectors in the world box, a view
/// direction and a sideways direction of positive fixed-point norm, and
/// nonnegative viewing parameters within the working range.
pub open spec fn camera_inputs_wf(
    from: Vec3i,
    at: Vec3i,
    up: Vec3i,
    tan: int,
    aspect: int,
    aperture: int,
    focus: int,
) -> bool {
    &&& v3_in_range(from, WORLD_MAX as int)
    &&& v3_in_range(at, WORLD_MAX as int)
    &&& v3_in_range(up, WORLD_MAX as int)
    &&& norm_sq_fx(v3_sub(from, at)) >= 1
    &&& norm_sq_fx(cross_fx(unit_fx(v3_sub(from, at)), up)) >= 1
    &&& 0 <= tan <= 0x10_0000_0000
    &&& 0 <= aspect <= 0x8_0000_0000
    &&& 0 <= aperture <= 2 * FX_ONE as int
    &&& 0 <= focus <= 0x100_0000_0000
    &&& fx_mul(focus, 2 * tan) <= 0x40_0000_0000
    &&& fx_mul(focus, fx_mul(aspect, 2 * tan)) <= 0x40_0000_0000
}

/// The exact derivation `setup_camera` performs.
pub open spec fn setup_camera_spec(
    from: Vec3i,
    at: Vec3i,
    up: Vec3i,
    tan: int,
    aspect: int,
    aperture: int,
    focus: int,
) -> CameraS {
    let vh = 2 * tan;
    let vw = fx_mul(aspect, vh);
    let w = unit_fx(v3_sub(from, at));
    let u = v3_neg(unit_fx(cross_fx(w, up)));
    let v = cross_fx(w, u);
    let horizontal = v3_scale(u, fx_mul(focus, vw));
    let vertical = v3_scale(v, fx_mul(focus, vh));
    let ll = v3_sub(
        v3_sub(v3_sub(from, v3_scale(horizontal, FX_HALF as int)), v3_scale(
            vertical,
            FX_HALF as int,
        )),
        v3_scale(w, focus),
    );
    CameraS {
        origin: from,
        lower_left_corner: ll,
        horizontal,
        vertical,
        u,
        v,
        w,
        lens_radius: fx_div(aperture, 2 * FX_ONE as int),
    }
}

/// Whether inputs are acceptable to `setup_camera`: the caller's guard.
pub fn camera_inputs_ok(
    look_from: &Vec3,
    look_at: &Vec3,
    up: &Vec3,
    half_fov_tan: Fx,
    aspect_ratio: Fx,
    aperture: Fx,
    focus_distance: Fx,
) -> (r: bool)
    ensures
        r == camera_inputs_wf(
            look_from@,
            look_at@,
            up@,
            half_fov_tan@,
            aspect_ratio@,
            aperture@,
            focus_distance@,
        ),
{
    let boxed = look_from.x.bits <= WORLD_MAX && look_from.x.bits >= -WORLD_MAX
        && look_from.y.bits <= WORLD_MAX && look_from.y.bits >= -WORLD_MAX && look_from.z.bits
        <= WORLD_MAX && look_from.z.bits >= -WORLD_MAX && look_at.x.bits <= WORLD_MAX
        && look_at.x.bits >= -WORLD_MAX && look_at.y.bits <= WORLD_MAX && look_at.y.bits
        >= -WORLD_MAX && look_at.z.bits <= WORLD_MAX && look_at.z.bits >= -WORLD_MAX && up.x.bits
        <= WORLD_MAX && up.x.bits >= -WORLD_MAX && up.y.bits <= WORLD_MAX && up.y.bits
        >= -WORLD_MAX && up.z.bits <= WORLD_MAX && up.z.bits >= -WORLD_MAX;
    if !boxed {
        return false;
    }
    let params = 0 <= half_fov_tan.bits && half_fov_tan.bits <= 0x10_0000_0000
        && 0 <= aspect_ratio.bits && aspect_ratio.bits <= 0x8_0000_0000 && 0 <= aperture.bits
        && aperture.bits <= 2 * FX_ONE && 0 <= focus_distance.bits && focus_distance.bits
        <= 0x100_0000_0000;
    if !params {
        return false;
    }
    let vh = half_fov_tan.add(half_fov_tan);
    proof {
        lemma_fx_mul_mag(focus_distance@, vh@, 0x100_0000_0000, 0x20_0000_0000);
        lemma_fx_mul_mag(aspect_ratio@, vh@, 0x8_0000_0000, 0x20_0000_0000);
    }
    let f_vh = focus_distance.mul(vh);
    let vw = aspect_ratio.mul(vh);
    proof {
        lemma_fx_mul_mag(focus_distance@, vw@, 0x100_0000_0000, 0x100_0000_0000);
    }
    let f_vw = focus_distance.mul(vw);
    if f_vh.bits > 0x40_0000_0000 || f_vw.bits > 0x40_0000_0000 {
        return false;
    }
    let d = look_from.sub(*look_at);
    if d.norm_squared().bits < 1 {
        return false;
    }
    let w = d.to_unit_vec();
    proof {
        cross_bound_lemmas(w@, up@);
    }
    let cu = w.cross(up);
    cu.norm_squared().bits >= 1
}

/// Product bounds for a cross of a unit-ish vector with a world vector.
proof fn cross_bound_lemmas(a: Vec3i, b: Vec3i)
    requires
        v3_in_range(a, UNIT_MAX as int),
        v3_in_range(b, WORLD_MAX as int),
    ensures
        v3_in_range(cross_fx(a, b), VEC_OP_MAX as int),
{
    lemma_fx_mul_mag(a.y, b.z, UNIT_MAX as int, WORLD_MAX as int);
    lemma_fx_mul_mag(a.z, b.y, UNIT_MAX as int, WORLD_MAX as int);
    lemma_fx_mul_mag(a.z, b.x, UNIT_MAX as int, WORLD_MAX as int);
    lemma_fx_mul_mag(a.x, b.z, UNIT_MAX as int, WORLD_MAX as int);
    lemma_fx_mul_mag(a.x, b.y, UNIT_MAX as int, WORLD_MAX as int);
    lemma_fx_mul_mag(a.y, b.x, UNIT_MAX as int, WORLD_MAX as int);
}

/// Build a camera from its viewing parameters. The vertical field of view is
/// given as the tangent of half the angle.
#[verifier::rlimit(100)]
pub fn setup_camera(
    look_from: Vec3,
    look_at: Vec3,
    up: Vec3,
    half_fov_tan: Fx,
    aspect_ratio: Fx,
    aperture: Fx,
    focus_distance: Fx,
) -> (c: Camera)
    requires
        camera_inputs_wf(
            look_from@,
            look_at@,
            up@,
            half_fov_tan@,
            aspect_ratio@,
            aperture@,
            focus_distance@,
        ),
    ensures
        c@ == setup_camera_spec(
            look_from@,
            look_at@,
            up@,
            half_fov_tan@,
            aspect_ratio@,
            aperture@,
            focus_distance@,
        ),
        camera_wf(c@),
{
    let viewport_height = half_fov_tan.add(half_fov_tan);
    proof {
        lemma_fx_mul_mag(aspect_ratio@, viewport_height@, 0x8_0000_0000, 0x20_0000_0000);
    }
    let viewport_width = aspect_ratio.mul(viewport_height);
    let w = look_from.sub(look_at).to_unit_vec();
    proof {
        cross_bound_lemmas(w@, up@);
    }
    let cu = w.cross(&up);
    let u = cu.to_unit_vec().neg();
    proof {
        lemma_fx_mul_mag(w@.y, u@.z, UNIT_MAX as int, UNIT_MAX as int);
        lemma_fx_mul_mag(w@.z, u@.y, UNIT_MAX as int, UNIT_MAX as int);
        lemma_fx_mul_mag(w@.z, u@.x, UNIT_MAX as int, UNIT_MAX as int);
        lemma_fx_mul_mag(w@.x, u@.z, UNIT_MAX as int, UNIT_MAX as int);
        lemma_fx_mul_mag(w@.x, u@.y, UNIT_MAX as int, UNIT_MAX as int);
        lemma_fx_mul_mag(w@.y, u@.x, UNIT_MAX as int, UNIT_MAX as int);
    }
    let v = w.cross(&u);
    let origin = look_from;
    proof {
        lemma_fx_mul_nonneg(aspect_ratio@, viewport_height@);
        lemma_fx_mul_nonneg(focus_distance@, viewport_width@);
        lemma_fx_mul_nonneg(focus_distance@, viewport_height@);
    }
    let kh = focus_distance.mul(viewport_width);
    let kv = focus_distance.mul(viewport_height);
    proof {
        lemma_fx_mul_mag(u@.x, kh@, UNIT_MAX as int, 0x40_0000_0000);
        lemma_fx_mul_mag(u@.y, kh@, UNIT_MAX as int, 0x40_0000_0000);
        lemma_fx_mul_mag(u@.z, kh@, UNIT_MAX as int, 0x40_0000_0000);
        lemma_fx_mul_mag(v@.x, kv@, 0x8_0000_0000, 0x40_0000_0000);
        lemma_fx_mul_mag(v@.y, kv@, 0x8_0000_0000, 0x40_0000_0000);
        lemma_fx_mul_mag(v@.z, kv@, 0x8_0000_0000, 0x40_0000_0000);
    }
    let horizontal = u.scale(kh);
    let vertical = v.scale(kv);
    let half = Fx { bits: FX_HALF };
    proof {
        lemma_fx_mul_mag(horizontal@.x, FX_HALF as int, 0x80_0000_0000, FX_HALF as int);
        lemma_fx_mul_mag(horizontal@.y, FX_HALF as int, 0x80_0000_0000, FX_HALF as int);
        lemma_fx_mul_mag(horizontal@.z, FX_HALF as int, 0x80_0000_0000, FX_HALF as int);
        lemma_fx_mul_mag(vertical@.x, FX_HALF as int, 0x200_0000_0000, FX_HALF as int);
        lemma_fx_mul_mag(vertical@.y, FX_HALF as int, 0x200_0000_0000, FX_HALF as int);
        lemma_fx_mul_mag(vertical@.z, FX_HALF as int, 0x200_0000_0000, FX_HALF as int);
        lemma_fx_mul_mag(w@.x, focus_distance@, UNIT_MAX as int, 0x100_0000_0000);
        lemma_fx_mul_mag(w@.y, focus_distance@, UNIT_MAX as int, 0x100_0000_0000);
        lemma_fx_mul_mag(w@.z, focus_distance@, UNIT_MAX as int, 0x100_0000_0000);
        lemma_fx_div_mag(aperture@, 2 * FX_ONE as int, 2 * FX_ONE as int, 2 * FX_ONE as int);
        lemma_fx_div_pos(aperture@, 2 * FX_ONE as int);
    }
    let lower_left_corner = origin.sub(horizontal.scale(half)).sub(vertical.scale(half)).sub(
        w.scale(focus_distance),
    );
    let lens_radius = aperture.div(Fx { bits: 2 * FX_ONE });
    Camera { origin, lower_left_corner, horizontal, vertical, u, v, w, lens_radius }
}

/// The exact behaviour of `send_ray_towards`: the ray and the generator
/// state after the two lens draws. A degenerate lens draw (zero fixed-point
/// norm) leaves the origin unperturbed.
pub open spec fn send_ray_spec(c: CameraS, s: int, x: int, y: int) -> (Rayi, int) {
    let (dx, s1) = rand_fx_spec(s, -(FX_ONE as int), FX_ONE as int);
    let (dy, s2) = rand_fx_spec(s1, -(FX_ONE as int), FX_ONE as int);
    let d = Vec3i { x: dx, y: dy, z: 0 };
    let rd = if norm_sq_fx(d) >= 1 {
        v3_scale(unit_fx(d), c.lens_radius)
    } else {
        Vec3i { x: 0, y: 0, z: 0 }
    };
    let offset = v3_add(v3_scale(c.u, rd.x), v3_scale(c.v, rd.y));
    let o2 = v3_add(c.origin, offset);
    let dir = v3_sub(
        v3_add(v3_add(c.lower_left_corner, v3_scale(c.horizontal, x)), v3_scale(c.vertical, y)),
        o2,
    );
    (Rayi { origin: o2, direction: dir }, s2)
}

impl Camera {
    /// The ray from the (lens-sampled) camera origin through the normalized
    /// image coordinates `(x, y)`.
    #[verifier::rlimit(100)]
    pub fn send_ray_towards(&self, rng: &mut Rng, x: Fx, y: Fx) -> (r: Ray)
        requires
            camera_wf(self@),
            rng_wf(old(rng)@),
            0 <= x@ <= FX_ONE as int,
            0 <= y@ <= FX_ONE as int,
        ensures
            rng_wf(final(rng)@),
            (r@, final(rng)@) == send_ray_spec(self@, old(rng)@, x@, y@),
            v3_in_range(r@.origin, HIT_MAX as int),
            v3_in_range(r@.direction, DIR_MAX as int),
    {
        let one = Fx { bits: FX_ONE };
        let neg_one = Fx { bits: -FX_ONE };
        let dx = rand_fx(rng, neg_one, one);
        let dy = rand_fx(rng, neg_one, one);
        let d = Vec3 { x: dx, y: dy, z: Fx { bits: 0 } };
        let ns = d.norm_squared();
        let random_direction = if ns.bits >= 1 {
            let unit = d.to_unit_vec();
            proof {
                lemma_fx_mul_mag(unit@.x, self@.lens_radius, UNIT_MAX as int, FX_ONE as int);
                lemma_fx_mul_mag(unit@.y, self@.lens_radius, UNIT_MAX as int, FX_ONE as int);
                lemma_fx_mul_mag(unit@.z, self@.lens_radius, UNIT_MAX as int, FX_ONE as int);
            }
            unit.scale(self.lens_radius)
        } else {
            Vec3::zero()
        };
        proof {
            lemma_fx_mul_mag(self@.u.x, random_direction@.x, UNIT_MAX as int, UNIT_MAX as int);
            lemma_fx_mul_mag(self@.u.y, random_direction@.x, UNIT_MAX as int, UNIT_MAX as int);
            lemma_fx_mul_mag(self@.u.z, random_direction@.x, UNIT_MAX as int, UNIT_MAX as int);
            lemma_fx_mul_mag(self@.v.x, random_direction@.y, 0x8_0000_0000, UNIT_MAX as int);
            lemma_fx_mul_mag(self@.v.y, random_direction@.y, 0x8_0000_0000, UNIT_MAX as int);
            lemma_fx_mul_mag(self@.v.z, random_direction@.y, 0x8_0000_0000, UNIT_MAX as int);
            lemma_fx_mul_mag(self@.horizontal.x, x@, 0x80_0000_0000, FX_ONE as int);
            lemma_fx_mul_mag(self@.horizontal.y, x@, 0x80_0000_0000, FX_ONE as int);
            lemma_fx_mul_mag(self@.horizontal.z, x@, 0x80_0000_0000, FX_ONE as int);
            lemma_fx_mul_mag(self@.vertical.x, y@, 0x200_0000_0000, FX_ONE as int);
            lemma_fx_mul_mag(self@.vertical.y, y@, 0x200_0000_0000, FX_ONE as int);
            lemma_fx_mul_mag(self@.vertical.z, y@, 0x200_0000_0000, FX_ONE as int);
        }
        let offset = self.u.scale(random_direction.x).add(self.v.scale(random_direction.y));
        let o2 = self.origin.add(offset);
        let dir = self.lower_left_corner.add(self.horizontal.scale(x)).add(
            self.vertical.scale(y),
        ).sub(o2);
        proof {
            let lo = v3_sub(self@.lower_left_corner, self@.origin);
            assert(dir@.x == lo.x + fx_mul(self@.horizontal.x, x@) + fx_mul(self@.vertical.x, y@)
                - offset@.x);
            assert(dir@.y == lo.y + fx_mul(self@.horizontal.y, x@) + fx_mul(self@.vertical.y, y@)
                - offset@.y);
            assert(dir@.z == lo.z + fx_mul(self@.horizontal.z, x@) + fx_mul(self@.vertical.z, y@)
                - offset@.z);
        }
        Ray { origin: o2, direction: dir }
    }
}

} // verus!
