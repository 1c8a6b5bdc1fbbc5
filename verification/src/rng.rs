//! Random sampling from an explicit, seedable linear-congruential generator.
//!
//! The generator is a value passed by mutable reference into every sampling
//! call, so renders are reproducible and each worker can own its own stream.
//! Every draw is specified exactly as a function of the generator state.
use crate::fixed::fx_mul;
use crate::fixed::lemma_fx_mul_le;
use crate::fixed::mag;
use crate::fixed::Fx;
use crate::fixed::FX_ONE;
use crate::vec::norm_sq_fx;
use crate::vec::unit_fx;
use crate::vec::v3_in_range;
use crate::vec::Vec3;
use crate::vec::Vec3i;
use crate::vec::UNIT_MAX;
use crate::vec::WORLD_MAX;
use vstd::prelude::*;

verus! {

pub const RNG_A: i32 = 8121;

pub const RNG_C: i32 = 28411;

pub const RNG_M: i32 = 134456;

/// A generator state is a residue modulo `RNG_M`.
pub open spec fn rng_wf(s: int) -> bool {
    0 <= s < RNG_M as int
}

/// One step of the linear-congruential generator.
pub open spec fn lcg_next(s: int) -> int {
    (RNG_A as int * s + RNG_C as int) % (RNG_M as int)
}

/// A scalar draw: the new state and the value `lo + (hi - lo) * t` for
/// `t = state / (RNG_M - 1)` in `[0, 1]`.
pub open spec fn rand_fx_spec(s: int, lo: int, hi: int) -> (int, int) {
    let s2 = lcg_next(s);
    let t = (s2 * (FX_ONE as int)) / (RNG_M as int - 1);
    (lo + fx_mul(hi - lo, t), s2)
}

/// A vector draw: one scalar draw per component, x then y then z.
pub open spec fn rand_vec_spec(s: int, lo: int, hi: int) -> (Vec3i, int) {
    let (x, s1) = rand_fx_spec(s, lo, hi);
    let (y, s2) = rand_fx_spec(s1, lo, hi);
    let (z, s3) = rand_fx_spec(s2, lo, hi);
    (Vec3i { x, y, z }, s3)
}

/// A unit-vector draw: vectors with components in `[-10, 10]` are drawn
/// until one has positive squared norm, which is then normalized. The fuel
/// covers every state of the finite generator; if it runs out (every draw
/// degenerate), the x axis is returned.
pub open spec fn rand_unit_spec(s: int, fuel: nat) -> (Vec3i, int)
    decreases fuel,
{
    if fuel == 0 {
        (Vec3i { x: FX_ONE as int, y: 0, z: 0 }, s)
    } else {
        let (v, s2) = rand_vec_spec(s, -10 * (FX_ONE as int), 10 * (FX_ONE as int));
        if norm_sq_fx(v) >= 1 {
            (unit_fx(v), s2)
        } else {
            rand_unit_spec(s2, (fuel - 1) as nat)
        }
    }
}

/// A deterministic, seedable random generator.
#[derive(Clone, Copy, PartialEq, Eq, Structural, Debug)]
pub struct Rng {
    pub state: i32,
}

impl View for Rng {
    type V = int;

    open spec fn view(&self) -> int {
        self.state as int
    }
}

impl Rng {
    pub fn new(seed: u32) -> (r: Rng)
        ensures
            rng_wf(r@),
            r@ == seed as int % (RNG_M as int),
    {
        Rng { state: (seed % (RNG_M as u32)) as i32 }
    }
}

/// A uniform scalar in `[t_min, t_max]`.
pub fn rand_fx(rng: &mut Rng, t_min: Fx, t_max: Fx) -> (r: Fx)
    requires
        rng_wf(old(rng)@),
        t_min@ <= t_max@,
        mag(t_min@) <= 2 * WORLD_MAX as int,
        mag(t_max@) <= 2 * WORLD_MAX as int,
    ensures
        rng_wf(final(rng)@),
        (r@, final(rng)@) == rand_fx_spec(old(rng)@, t_min@, t_max@),
        t_min@ <= r@ <= t_max@,
{
    let s2: i32 = (RNG_A * rng.state + RNG_C) % RNG_M;
    rng.state = s2;
    let t_bits: u64 = ((s2 as u64) * 4294967296u64) / 134455u64;
    let t = Fx { bits: t_bits as i64 };
    proof {
        vstd::arithmetic::div_mod::lemma_div_pos_is_pos(s2 as int * (FX_ONE as int), RNG_M as int
            - 1);
        vstd::arithmetic::div_mod::lemma_div_is_ordered(
            s2 as int * (FX_ONE as int),
            (RNG_M as int - 1) * (FX_ONE as int),
            RNG_M as int - 1,
        );
        vstd::arithmetic::div_mod::lemma_div_multiples_vanish(FX_ONE as int, RNG_M as int - 1);
        assert(0 <= t@ <= FX_ONE as int);
        lemma_fx_mul_le(t_max@ - t_min@, t@);
    }
    let d = t_max.sub(t_min);
    t_min.add(d.mul(t))
}

/// A vector whose components are uniform scalars in `[min_val, max_val]`.
pub fn rand_vec(rng: &mut Rng, min_val: Fx, max_val: Fx) -> (r: Vec3)
    requires
        rng_wf(old(rng)@),
        min_val@ <= max_val@,
        mag(min_val@) <= 2 * WORLD_MAX as int,
        mag(max_val@) <= 2 * WORLD_MAX as int,
    ensures
        rng_wf(final(rng)@),
        (r@, final(rng)@) == rand_vec_spec(old(rng)@, min_val@, max_val@),
        v3_in_range(r@, 2 * WORLD_MAX as int),
{
    let x = rand_fx(rng, min_val, max_val);
    let y = rand_fx(rng, min_val, max_val);
    let z = rand_fx(rng, min_val, max_val);
    Vec3 { x, y, z }
}

/// A random vector of (fixed-point) unit norm. The generator is finite, so
/// instead of looping forever on a (practically impossible) run of
/// degenerate draws, the loop gives up after one draw per generator state
/// and falls back to the x axis.
pub fn rand_unit_vec(rng: &mut Rng) -> (r: Vec3)
    requires
        rng_wf(old(rng)@),
    ensures
        rng_wf(final(rng)@),
        (r@, final(rng)@) == rand_unit_spec(old(rng)@, RNG_M as nat),
        v3_in_range(r@, UNIT_MAX as int),
{
    let lo = Fx { bits: -10 * FX_ONE };
    let hi = Fx { bits: 10 * FX_ONE };
    let mut tries: u32 = RNG_M as u32;
    while tries > 0
        invariant
            rng_wf(rng@),
            rand_unit_spec(old(rng)@, RNG_M as nat) == rand_unit_spec(rng@, tries as nat),
            lo@ == -10 * (FX_ONE as int),
            hi@ == 10 * (FX_ONE as int),
        decreases tries,
    {
        let v = rand_vec(rng, lo, hi);
        let ns = v.norm_squared();
        if ns.bits >= 1 {
            return v.to_unit_vec();
        }
        tries = tries - 1;
    }
    Vec3 { x: Fx { bits: FX_ONE }, y: Fx { bits: 0 }, z: Fx { bits: 0 } }
}

} // verus!
