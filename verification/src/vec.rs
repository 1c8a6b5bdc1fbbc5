//! Three-component vectors over fixed-point scalars.
//!
//! `Vec3` is used interchangeably as position, direction and colour. Its
//! mathematical model is `Vec3i`, the triple of the components' bits; every
//! operation's contract states the resulting bits exactly. Algebraic laws
//! (such as norm preservation under reflection) are stated and proved over
//! the exact integer layer (`dot_e`, `reflect_e`), which the fixed-point
//! operations approximate by truncation.
use crate::fixed::fx_div;
use crate::fixed::fx_mul;
use crate::fixed::fx_sqrt;
use crate::fixed::is_sqrt_floor;
use crate::fixed::lemma_div_trunc_mag;
use crate::fixed::lemma_fx_mul_mag;
use crate::fixed::lemma_mul_mag;
use crate::fixed::lemma_sqrt_floor_exists;
use crate::fixed::mag;
use crate::fixed::sqrt_floor;
use crate::fixed::Fx;
use crate::fixed::FX_ONE;
use vstd::prelude::*;

verus! {

/// Components below this magnitude (2^-16) count as almost zero.
pub const FX_EPS: i64 = 0x1_0000;

/// Bound on the bits of scene coordinates and radii (4096.0).
pub const WORLD_MAX: i64 = 0x1000_0000_0000;

/// Bound on the bits of ray origins and hit points (12288.0): three times the
/// scene box, so a hit on a sphere inside the scene box is always kept.
pub const HIT_MAX: i64 = 0x3000_0000_0000;

/// Bound on the bits of ray directions (2048.0).
pub const DIR_MAX: i64 = 0x800_0000_0000;

/// Bound on the bits of the components of a normalized vector (2.0).
pub const UNIT_MAX: i64 = 0x2_0000_0000;

/// Operand bound under which the vector operations cannot overflow.
pub const VEC_OP_MAX: i64 = 0x4000_0000_0000;

/// Mathematical model of a vector: the three components' bits.
pub struct Vec3i {
    pub x: int,
    pub y: int,
    pub z: int,
}

pub open spec fn v3_in_range(v: Vec3i, m: int) -> bool {
    mag(v.x) <= m && mag(v.y) <= m && mag(v.z) <= m
}

pub open spec fn v3_add(a: Vec3i, b: Vec3i) -> Vec3i {
    Vec3i { x: a.x + b.x, y: a.y + b.y, z: a.z + b.z }
}

pub open spec fn v3_sub(a: Vec3i, b: Vec3i) -> Vec3i {
    Vec3i { x: a.x - b.x, y: a.y - b.y, z: a.z - b.z }
}

pub open spec fn v3_neg(a: Vec3i) -> Vec3i {
    Vec3i { x: -a.x, y: -a.y, z: -a.z }
}

/// Componentwise fixed-point product (used for colour attenuation).
pub open spec fn v3_mul(a: Vec3i, b: Vec3i) -> Vec3i {
    Vec3i { x: fx_mul(a.x, b.x), y: fx_mul(a.y, b.y), z: fx_mul(a.z, b.z) }
}

/// Fixed-point scaling of a vector by a scalar.
pub open spec fn v3_scale(v: Vec3i, k: int) -> Vec3i {
    Vec3i { x: fx_mul(v.x, k), y: fx_mul(v.y, k), z: fx_mul(v.z, k) }
}

/// Fixed-point dot product.
pub open spec fn dot_fx(a: Vec3i, b: Vec3i) -> int {
    fx_mul(a.x, b.x) + fx_mul(a.y, b.y) + fx_mul(a.z, b.z)
}

/// Fixed-point cross product.
pub open spec fn cross_fx(a: Vec3i, b: Vec3i) -> Vec3i {
    Vec3i {
        x: fx_mul(a.y, b.z) - fx_mul(a.z, b.y),
        y: fx_mul(a.z, b.x) - fx_mul(a.x, b.z),
        z: fx_mul(a.x, b.y) - fx_mul(a.y, b.x),
    }
}

pub open spec fn norm_sq_fx(v: Vec3i) -> int {
    dot_fx(v, v)
}

pub open spec fn norm_fx(v: Vec3i) -> int {
    fx_sqrt(norm_sq_fx(v))
}

/// Fixed-point normalization: each component divided by the norm.
pub open spec fn unit_fx(v: Vec3i) -> Vec3i {
    Vec3i {
        x: fx_div(v.x, norm_fx(v)),
        y: fx_div(v.y, norm_fx(v)),
        z: fx_div(v.z, norm_fx(v)),
    }
}

pub open spec fn almost_zero_fx(v: Vec3i) -> bool {
    mag(v.x) < FX_EPS && mag(v.y) < FX_EPS && mag(v.z) < FX_EPS
}

/// Exact (unscaled) integer dot product, the reference for algebraic laws.
pub open spec fn dot_e(a: Vec3i, b: Vec3i) -> int {
    a.x * b.x + a.y * b.y + a.z * b.z
}

pub open spec fn scale_e(v: Vec3i, k: int) -> Vec3i {
    Vec3i { x: v.x * k, y: v.y * k, z: v.z * k }
}

/// Exact reflection of `v` about a normal `n` of norm `s`, scaled by `s*s`
/// to stay in the integers: `reflect_e(v, n, s) == s*s*(v - 2(v.n)n/(s*s))`.
pub open spec fn reflect_e(v: Vec3i, n: Vec3i) -> Vec3i {
    v3_sub(scale_e(v, dot_e(n, n)), scale_e(n, 2 * dot_e(v, n)))
}

/// Reflection preserves the norm: for a normal `n` with `n.n == s*s`, the
/// reflection of `v` about `n` (scaled by `s*s` to stay exact) has squared
/// norm `(s*s)^2` times that of `v`. At unit scale this is
/// `norm(reflect(v, n)) == norm(v)`.
pub proof fn lemma_reflect_preserves_norm(v: Vec3i, n: Vec3i, s: int)
    requires
        dot_e(n, n) == s * s,
    ensures
        dot_e(reflect_e(v, n), reflect_e(v, n)) == (s * s) * (s * s) * dot_e(v, v),
{
    let a = s * s;
    let k = dot_e(v, n);
    let r = reflect_e(v, n);
    assert(r.x == v.x * a - n.x * (2 * k));
    assert(r.y == v.y * a - n.y * (2 * k));
    assert(r.z == v.z * a - n.z * (2 * k));
    lemma_reflect_comp(v.x, n.x, a, k, r.x);
    lemma_reflect_comp(v.y, n.y, a, k, r.y);
    lemma_reflect_comp(v.z, n.z, a, k, r.z);
    assert(a * a * (v.x * v.x) + a * a * (v.y * v.y) + a * a * (v.z * v.z) == a * a * dot_e(v, v))
        by (nonlinear_arith)
        requires
            dot_e(v, v) == v.x * v.x + v.y * v.y + v.z * v.z,
    ;
    assert(4 * a * k * (v.x * n.x) + 4 * a * k * (v.y * n.y) + 4 * a * k * (v.z * n.z) == 4 * a * (
    k * k)) by (nonlinear_arith)
        requires
            k == v.x * n.x + v.y * n.y + v.z * n.z,
    ;
    assert(4 * k * k * (n.x * n.x) + 4 * k * k * (n.y * n.y) + 4 * k * k * (n.z * n.z) == 4 * a * (
    k * k)) by (nonlinear_arith)
        requires
            a == n.x * n.x + n.y * n.y + n.z * n.z,
    ;
}

/// Square of one component of a reflection, expanded.
proof fn lemma_reflect_comp(vc: int, nc: int, a: int, k: int, rc: int)
    requires
        rc == vc * a - nc * (2 * k),
    ensures
        rc * rc == a * a * (vc * vc) - 4 * a * k * (vc * nc) + 4 * k * k * (nc * nc),
{
    let p = vc * a;
    let q = nc * (2 * k);
    assert(rc * rc == p * p - 2 * (p * q) + q * q) by (nonlinear_arith)
        requires
            rc == p - q,
    ;
    assert(p * p == a * a * (vc * vc)) by (nonlinear_arith)
        requires
            p == vc * a,
    ;
    assert(p * q == 2 * (a * k * (vc * nc))) by (nonlinear_arith)
        requires
            p == vc * a,
            q == nc * (2 * k),
    ;
    assert(q * q == 4 * k * k * (nc * nc)) by (nonlinear_arith)
        requires
            q == nc * (2 * k),
    ;
    assert(2 * (2 * (a * k * (vc * nc))) == 4 * a * k * (vc * nc)) by (nonlinear_arith);
}

/// A fixed-point square is never negative, and brackets the exact square.
pub proof fn lemma_fx_square_nonneg(a: int)
    ensures
        fx_mul(a, a) >= 0,
        fx_mul(a, a) * (FX_ONE as int) > a * a - FX_ONE as int,
        fx_mul(a, a) * (FX_ONE as int) <= a * a,
{
    assert(a * a >= 0 && mag(a * a) == a * a) by (nonlinear_arith);
    lemma_div_trunc_mag(a * a, FX_ONE as int);
    vstd::arithmetic::div_mod::lemma_div_pos_is_pos(a * a, FX_ONE as int);
    vstd::arithmetic::div_mod::lemma_fundamental_div_mod(a * a, FX_ONE as int);
    vstd::arithmetic::div_mod::lemma_mod_bound(a * a, FX_ONE as int);
    assert((a * a / (FX_ONE as int)) * (FX_ONE as int) == (FX_ONE as int) * (a * a / (
    FX_ONE as int))) by (nonlinear_arith);
}

/// The squared fixed-point norm is never negative.
pub proof fn lemma_norm_sq_nonneg(v: Vec3i)
    ensures
        norm_sq_fx(v) >= 0,
        norm_sq_fx(v) >= fx_mul(v.x, v.x),
        norm_sq_fx(v) >= fx_mul(v.y, v.y),
        norm_sq_fx(v) >= fx_mul(v.z, v.z),
{
    lemma_fx_square_nonneg(v.x);
    lemma_fx_square_nonneg(v.y);
    lemma_fx_square_nonneg(v.z);
}

/// Facts about the fixed-point norm of a vector with positive squared norm:
/// it is at least 2^16 (one unit of squared bits), and no component exceeds
/// twice the norm. Hence each component of the normalized vector is at most
/// 2.0 in magnitude.
pub proof fn lemma_norm_bounds(v: Vec3i)
    requires
        v3_in_range(v, VEC_OP_MAX as int),
        norm_sq_fx(v) >= 1,
    ensures
        norm_fx(v) >= 0x1_0000,
        mag(v.x) <= 2 * norm_fx(v),
        mag(v.y) <= 2 * norm_fx(v),
        mag(v.z) <= 2 * norm_fx(v),
{
    let ns = norm_sq_fx(v);
    let n2 = ns * (FX_ONE as int);
    lemma_sqrt_floor_exists(n2);
    let nr = sqrt_floor(n2);
    assert(n2 >= FX_ONE as int);
    assert(nr >= 0x1_0000) by (nonlinear_arith)
        requires
            is_sqrt_floor(n2, nr),
            n2 >= 0x1_0000_0000,
    ;
    lemma_norm_sq_nonneg(v);
    lemma_norm_comp_le(v.x, ns, nr);
    lemma_norm_comp_le(v.y, ns, nr);
    lemma_norm_comp_le(v.z, ns, nr);
}

/// One component of `lemma_norm_bounds`: a component whose truncated square
/// is below the squared norm is at most twice the norm.
proof fn lemma_norm_comp_le(c: int, ns: int, nr: int)
    requires
        mag(c) <= VEC_OP_MAX as int,
        ns >= fx_mul(c, c),
        is_sqrt_floor(ns * (FX_ONE as int), nr),
        nr >= 0x1_0000,
    ensures
        mag(c) <= 2 * nr,
{
    let u = mag(c);
    if u > 2 * nr {
        lemma_fx_square_nonneg(c);
        assert(fx_mul(c, c) * (FX_ONE as int) > c * c - FX_ONE as int);
        assert(ns * (FX_ONE as int) >= fx_mul(c, c) * (FX_ONE as int)) by (nonlinear_arith)
            requires
                ns >= fx_mul(c, c),
        ;
        assert(c * c == u * u) by (nonlinear_arith)
            requires
                u == c || u == -c,
        ;
        // nr < u / 2 while (nr + 1)^2 > u*u - FX_ONE forces u below 2^17,
        // but then nr >= 2^16 gives 2 * nr >= u after all.
        assert(false) by (nonlinear_arith)
            requires
                u > 2 * nr,
                nr >= 0x1_0000,
                (nr + 1) * (nr + 1) > u * u - 0x1_0000_0000,
        ;
    }
}

/// How far the squared fixed-point norm of a normalized vector may deviate
/// from 1 (2^-13), for inputs of squared norm at least `FX_EPS`.
pub const UNIT_NORM_TOL: i64 = 0x8_0000;

/// Division brackets for one normalized component: the square of
/// `fx_div(c, nr)` times `nr^2` brackets `c^2 * FX_ONE^2` to within one
/// quotient step.
proof fn lemma_unit_comp_sq(c: int, nr: int)
    requires
        0x1_0000 <= nr,
        mag(c) <= 2 * nr,
        mag(c) <= VEC_OP_MAX as int,
    ensures
        ({
            let u = fx_div(c, nr);
            &&& 0 <= mag(u) <= 2 * (FX_ONE as int)
            &&& u * u * (nr * nr) <= (c * c) * ((FX_ONE as int) * (FX_ONE as int))
            &&& (u * u + 2 * mag(u) + 1) * (nr * nr) > (c * c) * ((FX_ONE as int) * (
            FX_ONE as int))
        }),
{
    lemma_unit_div(c, nr);
    let u = fx_div(c, nr);
    let m = mag(c) * (FX_ONE as int);
    let mcf = mag(c * (FX_ONE as int));
    assert(m >= 0) by (nonlinear_arith)
        requires
            m == mag(c) * (FX_ONE as int),
            mag(c) >= 0,
    ;
    assert(mcf == m) by (nonlinear_arith)
        requires
            m == mag(c) * (FX_ONE as int),
            mag(c) == c || mag(c) == -c,
            mag(c) >= 0,
            mcf == c * (FX_ONE as int) || mcf == -(c * (FX_ONE as int)),
            mcf >= 0,
    ;
    lemma_div_trunc_mag(c * (FX_ONE as int), nr);
    vstd::arithmetic::div_mod::lemma_fundamental_div_mod(m, nr);
    vstd::arithmetic::div_mod::lemma_mod_bound(m, nr);
    assert(mag(u) * nr <= m && m < (mag(u) + 1) * nr) by (nonlinear_arith)
        requires
            m == nr * (m / nr) + m % nr,
            0 <= m % nr < nr,
            mag(u) == m / nr,
    ;
    assert(u * u * (nr * nr) == (mag(u) * nr) * (mag(u) * nr) && (c * c) * ((FX_ONE as int) * (
    FX_ONE as int)) == m * m) by (nonlinear_arith)
        requires
            m == mag(c) * (FX_ONE as int),
            mag(u) == u || mag(u) == -u,
            mag(c) == c || mag(c) == -c,
    ;
    assert((mag(u) * nr) * (mag(u) * nr) <= m * m) by (nonlinear_arith)
        requires
            0 <= mag(u) * nr <= m,
    ;
    assert(((mag(u) + 1) * nr) * ((mag(u) + 1) * nr) > m * m) by (nonlinear_arith)
        requires
            0 <= m < (mag(u) + 1) * nr,
    ;
    assert(((mag(u) + 1) * nr) * ((mag(u) + 1) * nr) == (u * u + 2 * mag(u) + 1) * (nr * nr))
        by (nonlinear_arith)
        requires
            mag(u) == u || mag(u) == -u,
    ;
}

/// The executable normalization is near-unit: for a vector whose squared
/// fixed-point norm is at least `FX_EPS`, the normalized result's squared
/// fixed-point norm lies within `UNIT_NORM_TOL` of 1.
pub proof fn lemma_unit_norm_close(v: Vec3i)
    requires
        v3_in_range(v, VEC_OP_MAX as int),
        norm_sq_fx(v) >= FX_EPS as int,
    ensures
        mag(norm_sq_fx(unit_fx(v)) - FX_ONE as int) <= UNIT_NORM_TOL as int,
{
    let ns = norm_sq_fx(v);
    let n2 = ns * (FX_ONE as int);
    lemma_sqrt_floor_exists(n2);
    let nr = sqrt_floor(n2);
    assert(nr >= 0x100_0000) by (nonlinear_arith)
        requires
            is_sqrt_floor(n2, nr),
            n2 >= 0x1_0000_0000_0000,
    ;
    lemma_norm_bounds(v);
    lemma_unit_comp_sq(v.x, nr);
    lemma_unit_comp_sq(v.y, nr);
    lemma_unit_comp_sq(v.z, nr);
    let u = unit_fx(v);
    let su = u.x * u.x + u.y * u.y + u.z * u.z;
    let big = dot_e(v, v) * ((FX_ONE as int) * (FX_ONE as int));
    assert(su >= 0) by (nonlinear_arith)
        requires
            su == u.x * u.x + u.y * u.y + u.z * u.z,
    ;
    assert(su * (nr * nr) <= big) by (nonlinear_arith)
        requires
            u.x * u.x * (nr * nr) <= (v.x * v.x) * ((FX_ONE as int) * (FX_ONE as int)),
            u.y * u.y * (nr * nr) <= (v.y * v.y) * ((FX_ONE as int) * (FX_ONE as int)),
            u.z * u.z * (nr * nr) <= (v.z * v.z) * ((FX_ONE as int) * (FX_ONE as int)),
            su == u.x * u.x + u.y * u.y + u.z * u.z,
            big == (v.x * v.x + v.y * v.y + v.z * v.z) * ((FX_ONE as int) * (FX_ONE as int)),
    ;
    let nn = nr * nr;
    let bx = u.x * u.x + 2 * mag(u.x) + 1;
    let by = u.y * u.y + 2 * mag(u.y) + 1;
    let bz = u.z * u.z + 2 * mag(u.z) + 1;
    assert(nn >= 0) by (nonlinear_arith)
        requires
            nn == nr * nr,
    ;
    assert((bx + by + bz) * nn == bx * nn + by * nn + bz * nn) by (nonlinear_arith);
    assert(big == (v.x * v.x) * ((FX_ONE as int) * (FX_ONE as int)) + (v.y * v.y) * ((
    FX_ONE as int) * (FX_ONE as int)) + (v.z * v.z) * ((FX_ONE as int) * (FX_ONE as int)))
        by (nonlinear_arith)
        requires
            big == (v.x * v.x + v.y * v.y + v.z * v.z) * ((FX_ONE as int) * (FX_ONE as int)),
    ;
    assert((bx + by + bz) * nn > big);
    assert((su + 0x10_0000_0000 + 3) * nn >= (bx + by + bz) * nn) by (nonlinear_arith)
        requires
            su + 0x10_0000_0000 + 3 >= bx + by + bz,
            nn >= 0,
    ;
    assert((su + 0x10_0000_0000 + 3) * (nr * nr) > big);
    lemma_fx_square_nonneg(v.x);
    lemma_fx_square_nonneg(v.y);
    lemma_fx_square_nonneg(v.z);
    let vv = dot_e(v, v);
    assert(ns * (FX_ONE as int) <= vv && vv < ns * (FX_ONE as int) + 3 * (FX_ONE as int));
    // From the brackets: su is within rounding of FX_ONE^2.
    assert(su <= (FX_ONE as int) * (FX_ONE as int) + 0x4_0000_0000_0000) by (nonlinear_arith)
        requires
            su * (nr * nr) <= vv * ((FX_ONE as int) * (FX_ONE as int)),
            vv < ns * (FX_ONE as int) + 3 * (FX_ONE as int),
            ns * (FX_ONE as int) < (nr + 1) * (nr + 1),
            nr >= 0x100_0000,
            su >= 0,
    ;
    assert(su >= (FX_ONE as int) * (FX_ONE as int) - 0x10_0000_0100) by (nonlinear_arith)
        requires
            (su + 0x10_0000_0000 + 3) * (nr * nr) > vv * ((FX_ONE as int) * (FX_ONE as int)),
            vv >= ns * (FX_ONE as int),
            nr * nr <= ns * (FX_ONE as int),
            nr >= 0x100_0000,
    ;
    lemma_fx_square_nonneg(u.x);
    lemma_fx_square_nonneg(u.y);
    lemma_fx_square_nonneg(u.z);
    let nsu = norm_sq_fx(u);
    assert(su - 3 * (FX_ONE as int) < nsu * (FX_ONE as int) <= su);
    assert(mag(nsu - FX_ONE as int) <= UNIT_NORM_TOL as int) by (nonlinear_arith)
        requires
            su - 3 * (FX_ONE as int) < nsu * (FX_ONE as int) <= su,
            (FX_ONE as int) * (FX_ONE as int) - 0x10_0000_0100 <= su <= (FX_ONE as int) * (
            FX_ONE as int) + 0x4_0000_0000_0000,
    ;
}

/// Negating one argument negates a fixed-point dot product.
pub proof fn lemma_dot_neg(a: Vec3i, b: Vec3i)
    ensures
        dot_fx(a, v3_neg(b)) == -dot_fx(a, b),
{
    crate::fixed::lemma_fx_mul_neg(a.x, b.x);
    crate::fixed::lemma_fx_mul_neg(a.y, b.y);
    crate::fixed::lemma_fx_mul_neg(a.z, b.z);
}

/// Negation keeps the squared fixed-point norm.
pub proof fn lemma_norm_sq_neg(v: Vec3i)
    ensures
        norm_sq_fx(v3_neg(v)) == norm_sq_fx(v),
{
    assert((-v.x) * (-v.x) == v.x * v.x) by (nonlinear_arith);
    assert((-v.y) * (-v.y) == v.y * v.y) by (nonlinear_arith);
    assert((-v.z) * (-v.z) == v.z * v.z) by (nonlinear_arith);
}

/// A colour is a vector: red, green, blue channels.
pub type Color = Vec3;

/// A vector of fixed-point scalars.
#[derive(Clone, Copy, PartialEq, Eq, Structural, Debug)]
pub struct Vec3 {
    pub x: Fx,
    pub y: Fx,
    pub z: Fx,
}

impl View for Vec3 {
    type V = Vec3i;

    open spec fn view(&self) -> Vec3i {
        Vec3i { x: self.x@, y: self.y@, z: self.z@ }
    }
}

impl Vec3 {
    pub fn zero() -> (r: Vec3)
        ensures
            r@ == (Vec3i { x: 0, y: 0, z: 0 }),
    {
        Vec3 { x: Fx { bits: 0 }, y: Fx { bits: 0 }, z: Fx { bits: 0 } }
    }

    pub fn add(self, rhs: Vec3) -> (r: Vec3)
        requires
            v3_in_range(self@, 0x3fff_ffff_ffff_ffff),
            v3_in_range(rhs@, 0x3fff_ffff_ffff_ffff),
        ensures
            r@ == v3_add(self@, rhs@),
    {
        Vec3 { x: self.x.add(rhs.x), y: self.y.add(rhs.y), z: self.z.add(rhs.z) }
    }

    pub fn sub(self, rhs: Vec3) -> (r: Vec3)
        requires
            v3_in_range(self@, 0x3fff_ffff_ffff_ffff),
            v3_in_range(rhs@, 0x3fff_ffff_ffff_ffff),
        ensures
            r@ == v3_sub(self@, rhs@),
    {
        Vec3 { x: self.x.sub(rhs.x), y: self.y.sub(rhs.y), z: self.z.sub(rhs.z) }
    }

    pub fn neg(self) -> (r: Vec3)
        requires
            v3_in_range(self@, 0x3fff_ffff_ffff_ffff),
        ensures
            r@ == v3_neg(self@),
    {
        Vec3 { x: self.x.neg(), y: self.y.neg(), z: self.z.neg() }
    }

    /// Componentwise product (colour attenuation).
    pub fn mul(self, rhs: Vec3) -> (r: Vec3)
        requires
            v3_in_range(self@, 0x8000_0000_0000),
            v3_in_range(rhs@, 0x8000_0000_0000),
        ensures
            r@ == v3_mul(self@, rhs@),
    {
        proof {
            lemma_fx_mul_mag(self@.x, rhs@.x, 0x8000_0000_0000, 0x8000_0000_0000);
            lemma_fx_mul_mag(self@.y, rhs@.y, 0x8000_0000_0000, 0x8000_0000_0000);
            lemma_fx_mul_mag(self@.z, rhs@.z, 0x8000_0000_0000, 0x8000_0000_0000);
        }
        Vec3 { x: self.x.mul(rhs.x), y: self.y.mul(rhs.y), z: self.z.mul(rhs.z) }
    }

    /// Scaling by a scalar.
    pub fn scale(self, k: Fx) -> (r: Vec3)
        requires
            i64::MIN <= fx_mul(self@.x, k@) <= i64::MAX,
            i64::MIN <= fx_mul(self@.y, k@) <= i64::MAX,
            i64::MIN <= fx_mul(self@.z, k@) <= i64::MAX,
        ensures
            r@ == v3_scale(self@, k@),
    {
        Vec3 { x: self.x.mul(k), y: self.y.mul(k), z: self.z.mul(k) }
    }

    pub fn dot(&self, other: &Vec3) -> (r: Fx)
        requires
            v3_in_range(self@, VEC_OP_MAX as int),
            v3_in_range(other@, VEC_OP_MAX as int),
        ensures
            r@ == dot_fx(self@, other@),
    {
        proof {
            lemma_fx_mul_mag(self@.x, other@.x, VEC_OP_MAX as int, VEC_OP_MAX as int);
            lemma_fx_mul_mag(self@.y, other@.y, VEC_OP_MAX as int, VEC_OP_MAX as int);
            lemma_fx_mul_mag(self@.z, other@.z, VEC_OP_MAX as int, VEC_OP_MAX as int);
        }
        self.x.mul(other.x).add(self.y.mul(other.y)).add(self.z.mul(other.z))
    }

    pub fn cross(&self, other: &Vec3) -> (r: Vec3)
        requires
            v3_in_range(self@, VEC_OP_MAX as int),
            v3_in_range(other@, VEC_OP_MAX as int),
        ensures
            r@ == cross_fx(self@, other@),
    {
        proof {
            lemma_fx_mul_mag(self@.y, other@.z, VEC_OP_MAX as int, VEC_OP_MAX as int);
            lemma_fx_mul_mag(self@.z, other@.y, VEC_OP_MAX as int, VEC_OP_MAX as int);
            lemma_fx_mul_mag(self@.z, other@.x, VEC_OP_MAX as int, VEC_OP_MAX as int);
            lemma_fx_mul_mag(self@.x, other@.z, VEC_OP_MAX as int, VEC_OP_MAX as int);
            lemma_fx_mul_mag(self@.x, other@.y, VEC_OP_MAX as int, VEC_OP_MAX as int);
            lemma_fx_mul_mag(self@.y, other@.x, VEC_OP_MAX as int, VEC_OP_MAX as int);
        }
        Vec3 {
            x: self.y.mul(other.z).sub(self.z.mul(other.y)),
            y: self.z.mul(other.x).sub(self.x.mul(other.z)),
            z: self.x.mul(other.y).sub(self.y.mul(other.x)),
        }
    }

    pub fn norm_squared(&self) -> (r: Fx)
        requires
            v3_in_range(self@, VEC_OP_MAX as int),
        ensures
            r@ == norm_sq_fx(self@),
            r@ >= 0,
    {
        proof {
            lemma_norm_sq_nonneg(self@);
            lemma_fx_square_nonneg(self@.x);
            lemma_fx_square_nonneg(self@.y);
            lemma_fx_square_nonneg(self@.z);
        }
        self.dot(self)
    }

    pub fn norm(&self) -> (r: Fx)
        requires
            v3_in_range(self@, VEC_OP_MAX as int),
        ensures
            r@ == norm_fx(self@),
    {
        self.norm_squared().sqrt()
    }

    /// Normalization. A vector whose fixed-point squared norm is zero has no
    /// direction to keep, so it is excluded by precondition. For an input of
    /// squared norm at least `FX_EPS` the result is unit length to within
    /// `UNIT_NORM_TOL`; below that floor the representation cannot promise a
    /// near-unit result.
    pub fn to_unit_vec(&self) -> (r: Vec3)
        requires
            v3_in_range(self@, VEC_OP_MAX as int),
            norm_sq_fx(self@) >= 1,
        ensures
            r@ == unit_fx(self@),
            v3_in_range(r@, UNIT_MAX as int),
            norm_sq_fx(self@) >= FX_EPS as int ==> mag(norm_sq_fx(r@) - FX_ONE as int)
                <= UNIT_NORM_TOL as int,
    {
        proof {
            if norm_sq_fx(self@) >= FX_EPS as int {
                lemma_unit_norm_close(self@);
            }
            lemma_norm_bounds(self@);
            lemma_unit_div(self@.x, norm_fx(self@));
            lemma_unit_div(self@.y, norm_fx(self@));
            lemma_unit_div(self@.z, norm_fx(self@));
        }
        let n = self.norm();
        Vec3 { x: self.x.div(n), y: self.y.div(n), z: self.z.div(n) }
    }

    pub fn almost_zero(&self) -> (r: bool)
        ensures
            r == almost_zero_fx(self@),
    {
        let e: i64 = FX_EPS;
        self.x.bits < e && self.x.bits > -e && self.y.bits < e && self.y.bits > -e
            && self.z.bits < e && self.z.bits > -e
    }

    /// Rotation about a unit axis by an angle given through its sine and
    /// cosine (Rodrigues' rotation formula).
    pub fn rotate(&self, axis: &Vec3, sin_t: Fx, cos_t: Fx) -> (r: Vec3)
        requires
            v3_in_range(self@, WORLD_MAX as int),
            v3_in_range(axis@, UNIT_MAX as int),
            mag(norm_sq_fx(axis@) - FX_ONE as int) <= FX_EPS as int,
            mag(sin_t@) <= FX_ONE as int,
            mag(cos_t@) <= FX_ONE as int,
        ensures
            r@ == rotate_fx(self@, axis@, sin_t@, cos_t@),
    {
        let k = axis.dot(self);
        proof {
            lemma_fx_mul_mag(axis@.x, self@.x, UNIT_MAX as int, WORLD_MAX as int);
            lemma_fx_mul_mag(axis@.y, self@.y, UNIT_MAX as int, WORLD_MAX as int);
            lemma_fx_mul_mag(axis@.z, self@.z, UNIT_MAX as int, WORLD_MAX as int);
            lemma_fx_mul_mag(self@.x, cos_t@, WORLD_MAX as int, FX_ONE as int);
            lemma_fx_mul_mag(self@.y, cos_t@, WORLD_MAX as int, FX_ONE as int);
            lemma_fx_mul_mag(self@.z, cos_t@, WORLD_MAX as int, FX_ONE as int);
            lemma_fx_mul_mag(axis@.x, dot_fx(axis@, self@), UNIT_MAX as int, 0x6000_0000_0000);
            lemma_fx_mul_mag(axis@.y, dot_fx(axis@, self@), UNIT_MAX as int, 0x6000_0000_0000);
            lemma_fx_mul_mag(axis@.z, dot_fx(axis@, self@), UNIT_MAX as int, 0x6000_0000_0000);
        }
        let term1 = self.scale(cos_t);
        let one_minus_cos = Fx { bits: FX_ONE }.sub(cos_t);
        let ak = axis.scale(k);
        proof {
            lemma_fx_mul_mag(ak@.x, one_minus_cos@, 0xc000_0000_0000, 3 * FX_ONE as int);
            lemma_fx_mul_mag(ak@.y, one_minus_cos@, 0xc000_0000_0000, 3 * FX_ONE as int);
            lemma_fx_mul_mag(ak@.z, one_minus_cos@, 0xc000_0000_0000, 3 * FX_ONE as int);
        }
        let term2 = ak.scale(one_minus_cos);
        let cr = axis.cross(self);
        proof {
            lemma_fx_mul_mag(axis@.y, self@.z, UNIT_MAX as int, WORLD_MAX as int);
            lemma_fx_mul_mag(axis@.z, self@.y, UNIT_MAX as int, WORLD_MAX as int);
            lemma_fx_mul_mag(axis@.z, self@.x, UNIT_MAX as int, WORLD_MAX as int);
            lemma_fx_mul_mag(axis@.x, self@.z, UNIT_MAX as int, WORLD_MAX as int);
            lemma_fx_mul_mag(axis@.x, self@.y, UNIT_MAX as int, WORLD_MAX as int);
            lemma_fx_mul_mag(axis@.y, self@.x, UNIT_MAX as int, WORLD_MAX as int);
            lemma_fx_mul_mag(cr@.x, sin_t@, 0x8000_0000_0000, FX_ONE as int);
            lemma_fx_mul_mag(cr@.y, sin_t@, 0x8000_0000_0000, FX_ONE as int);
            lemma_fx_mul_mag(cr@.z, sin_t@, 0x8000_0000_0000, FX_ONE as int);
        }
        let term3 = cr.scale(sin_t);
        term1.add(term2).add(term3)
    }
}

/// Rodrigues' rotation formula over the fixed-point operations.
pub open spec fn rotate_fx(v: Vec3i, axis: Vec3i, sin_t: int, cos_t: int) -> Vec3i {
    v3_add(
        v3_add(
            v3_scale(v, cos_t),
            v3_scale(v3_scale(axis, dot_fx(axis, v)), FX_ONE as int - cos_t),
        ),
        v3_scale(cross_fx(axis, v), sin_t),
    )
}

/// Division of a bounded component by a norm at least 2^16 stays in `i64`.
proof fn lemma_unit_div(c: int, nr: int)
    requires
        mag(c) <= VEC_OP_MAX as int,
        nr >= 0x1_0000,
        mag(c) <= 2 * nr,
    ensures
        i64::MIN <= fx_div(c, nr) <= i64::MAX,
        mag(fx_div(c, nr)) <= UNIT_MAX as int,
    decreases 0int,
{
    lemma_mul_mag(c, FX_ONE as int, mag(c), FX_ONE as int);
    lemma_div_trunc_mag(c * (FX_ONE as int), nr);
    assert(mag(c * (FX_ONE as int)) == mag(c) * (FX_ONE as int)) by (nonlinear_arith);
    assert(mag(c) * (FX_ONE as int) <= (2 * nr) * (FX_ONE as int)) by (nonlinear_arith)
        requires
            mag(c) <= 2 * nr,
    ;
    vstd::arithmetic::div_mod::lemma_div_is_ordered(
        mag(c) * (FX_ONE as int),
        (2 * nr) * (FX_ONE as int),
        nr,
    );
    assert((2 * nr) * (FX_ONE as int) == (2 * (FX_ONE as int)) * nr) by (nonlinear_arith);
    vstd::arithmetic::div_mod::lemma_div_multiples_vanish(2 * (FX_ONE as int), nr);
    vstd::arithmetic::div_mod::lemma_div_pos_is_pos(mag(c) * (FX_ONE as int), nr);
}

} // verus!
