//! Rays: an origin and a direction, evaluated by `origin + t * direction`.
use crate::fixed::mag;
use crate::fixed::Fx;
use crate::vec::v3_add;
use crate::vec::v3_in_range;
use crate::vec::v3_scale;
use crate::vec::Vec3;
use crate::vec::Vec3i;
use crate::vec::DIR_MAX;
use vstd::prelude::*;

verus! {

/// The farthest representable ray parameter (262144.0): the search horizon
/// that stands in for an unbounded window.
pub const T_HORIZON: i64 = 0x4_0000_0000_0000;

/// Mathematical model of a ray.
pub struct Rayi {
    pub origin: Vec3i,
    pub direction: Vec3i,
}

/// The point a ray reaches at parameter `t`.
pub open spec fn ray_at(r: Rayi, t: int) -> Vec3i {
    v3_add(v3_scale(r.direction, t), r.origin)
}

/// A ray is a value: immutable once constructed. Its direction need not be
/// normalized; consumers that need unit length normalize explicitly.
#[derive(Clone, Copy, PartialEq, Eq, Structural, Debug)]
pub struct Ray {
    pub origin: Vec3,
    pub direction: Vec3,
}

impl View for Ray {
    type V = Rayi;

    open spec fn view(&self) -> Rayi {
        Rayi { origin: self.origin@, direction: self.direction@ }
    }
}

impl Ray {
    pub fn at(&self, t: Fx) -> (p: Vec3)
        requires
            v3_in_range(self@.direction, DIR_MAX as int),
            v3_in_range(self@.origin, 0x3fff_ffff_ffff_ffff),
            mag(t@) <= T_HORIZON as int,
        ensures
            p@ == ray_at(self@, t@),
    {
        proof {
            crate::fixed::lemma_fx_mul_mag(self@.direction.x, t@, DIR_MAX as int,
                T_HORIZON as int);
            crate::fixed::lemma_fx_mul_mag(self@.direction.y, t@, DIR_MAX as int,
                T_HORIZON as int);
            crate::fixed::lemma_fx_mul_mag(self@.direction.z, t@, DIR_MAX as int,
                T_HORIZON as int);
        }
        self.direction.scale(t).add(self.origin)
    }
}

} // verus!
