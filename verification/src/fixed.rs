//! Fixed-point scalars.
//!
//! Every real quantity of the tracer (coordinate, colour channel, ray
//! parameter) is a `Fx`: a signed 64-bit integer holding the quantity scaled
//! by `FX_ONE` (32 fractional bits). All arithmetic on `Fx` is specified
//! exactly, as truncating (round-toward-zero) integer arithmetic on the
//! underlying bits, so every contract in the crate can pin results down to
//! the bit.
use vstd::prelude::*;

verus! {

/// The representation of 1: `Fx` bits are the real value times `FX_ONE`.
pub const FX_ONE: i64 = 0x1_0000_0000;

/// Magnitude of an integer.
pub open spec fn mag(a: int) -> int {
    if a < 0 {
        -a
    } else {
        a
    }
}

/// Division rounding toward zero (the rounding all `Fx` operations use).
pub open spec fn div_trunc(a: int, b: int) -> int {
    let m = mag(a) / mag(b);
    if (a < 0) == (b < 0) {
        m
    } else {
        -m
    }
}

/// Product of two fixed-point numbers, on bits.
pub open spec fn fx_mul(a: int, b: int) -> int {
    div_trunc(a * b, FX_ONE as int)
}

/// Quotient of two fixed-point numbers, on bits.
pub open spec fn fx_div(a: int, b: int) -> int {
    div_trunc(a * (FX_ONE as int), b)
}

/// `r` is the integer square root (floor) of `n`.
pub open spec fn is_sqrt_floor(n: int, r: int) -> bool {
    0 <= r && r * r <= n && n < (r + 1) * (r + 1)
}

/// The integer square root (floor) of `n`, for `n >= 0`.
pub open spec fn sqrt_floor(n: int) -> int {
    choose|r: int| is_sqrt_floor(n, r)
}

/// Square root of a fixed-point number, on bits:
/// `(r / FX_ONE)^2 <= a / FX_ONE` exactly when `r^2 <= a * FX_ONE`.
pub open spec fn fx_sqrt(a: int) -> int {
    sqrt_floor(a * (FX_ONE as int))
}

pub open spec fn fx_min(a: int, b: int) -> int {
    if a <= b {
        a
    } else {
        b
    }
}

pub open spec fn fx_max(a: int, b: int) -> int {
    if a >= b {
        a
    } else {
        b
    }
}

/// Clamp `x` into `[lo, hi]`.
pub open spec fn fx_clamp(x: int, lo: int, hi: int) -> int {
    fx_min(fx_max(x, lo), hi)
}

pub proof fn lemma_sqrt_floor_exists(n: int)
    requires
        n >= 0,
    ensures
        is_sqrt_floor(n, sqrt_floor(n)),
    decreases n,
{
    if n == 0 {
        assert(is_sqrt_floor(0, 0));
    } else {
        lemma_sqrt_floor_exists(n - 1);
        let p = sqrt_floor(n - 1);
        if n == (p + 1) * (p + 1) {
            assert((p + 1) * (p + 1) < (p + 2) * (p + 2)) by (nonlinear_arith)
                requires
                    p >= 0,
            ;
            assert(is_sqrt_floor(n, p + 1));
        } else {
            assert(is_sqrt_floor(n, p));
        }
    }
    assert(exists|r: int| is_sqrt_floor(n, r));
}

pub proof fn lemma_sqrt_floor_unique(n: int, r: int)
    requires
        is_sqrt_floor(n, r),
    ensures
        r == sqrt_floor(n),
{
    assert(exists|q: int| is_sqrt_floor(n, q));
    let s = sqrt_floor(n);
    assert(is_sqrt_floor(n, s));
    if r < s {
        assert((r + 1) * (r + 1) <= s * s) by (nonlinear_arith)
            requires
                0 <= r + 1 <= s,
        ;
    }
    if s < r {
        assert((s + 1) * (s + 1) <= r * r) by (nonlinear_arith)
            requires
                0 <= s + 1 <= r,
        ;
    }
}

/// Bounds on a product of bounded integers.
pub proof fn lemma_mul_mag(a: int, b: int, ma: int, mb: int)
    by (nonlinear_arith)
    requires
        mag(a) <= ma,
        mag(b) <= mb,
    ensures
        mag(a * b) <= ma * mb,
{
}

pub proof fn lemma_div_trunc_mag(a: int, d: int)
    requires
        d > 0,
    ensures
        mag(div_trunc(a, d)) == mag(a) / d,
        div_trunc(a, d) == if a >= 0 {
            a / d
        } else {
            -((-a) / d)
        },
{
    vstd::arithmetic::div_mod::lemma_div_pos_is_pos(mag(a), d);
}

/// Bounds on a fixed-point product of bounded values.
pub proof fn lemma_fx_mul_mag(a: int, b: int, ma: int, mb: int)
    requires
        mag(a) <= ma,
        mag(b) <= mb,
    ensures
        mag(fx_mul(a, b)) <= ma * mb / (FX_ONE as int),
{
    lemma_mul_mag(a, b, ma, mb);
    lemma_div_trunc_mag(a * b, FX_ONE as int);
    vstd::arithmetic::div_mod::lemma_div_is_ordered(mag(a * b), ma * mb, FX_ONE as int);
}

/// Bounds on a fixed-point quotient, given a lower bound on the divisor.
pub proof fn lemma_fx_div_mag(a: int, b: int, ma: int, mb: int)
    requires
        mag(a) <= ma,
        0 < mb <= mag(b),
    ensures
        mag(fx_div(a, b)) <= ma * (FX_ONE as int) / mb,
{
    lemma_mul_mag(a, FX_ONE as int, ma, FX_ONE as int);
    let m = mag(a * (FX_ONE as int));
    assert(mag(fx_div(a, b)) == m / mag(b)) by {
        vstd::arithmetic::div_mod::lemma_div_pos_is_pos(m, mag(b));
    }
    vstd::arithmetic::div_mod::lemma_div_is_ordered_by_denominator(m, mb, mag(b));
    vstd::arithmetic::div_mod::lemma_div_is_ordered(m, ma * (FX_ONE as int), mb);
}

/// Negating one factor negates a fixed-point product.
pub proof fn lemma_fx_mul_neg(a: int, b: int)
    ensures
        fx_mul(a, -b) == -fx_mul(a, b),
{
    assert(a * (-b) == -(a * b)) by (nonlinear_arith);
}

/// A product of two values in `[0, 1]` stays in `[0, 1]` and below each factor.
pub proof fn lemma_fx_mul_unit(a: int, b: int)
    requires
        0 <= a <= FX_ONE as int,
        0 <= b <= FX_ONE as int,
    ensures
        0 <= fx_mul(a, b),
        fx_mul(a, b) <= a,
        fx_mul(a, b) <= b,
{
    assert(a * b >= 0 && a * b <= a * (FX_ONE as int) && a * b <= b * (FX_ONE as int))
        by (nonlinear_arith)
        requires
            0 <= a <= FX_ONE as int,
            0 <= b <= FX_ONE as int,
    ;
    lemma_div_trunc_mag(a * b, FX_ONE as int);
    vstd::arithmetic::div_mod::lemma_div_pos_is_pos(a * b, FX_ONE as int);
    vstd::arithmetic::div_mod::lemma_div_is_ordered(a * b, a * (FX_ONE as int), FX_ONE as int);
    vstd::arithmetic::div_mod::lemma_div_is_ordered(a * b, b * (FX_ONE as int), FX_ONE as int);
    vstd::arithmetic::div_mod::lemma_div_multiples_vanish(a, FX_ONE as int);
    vstd::arithmetic::div_mod::lemma_div_multiples_vanish(b, FX_ONE as int);
}

/// Scaling a nonnegative value by a factor in `[0, 1]` keeps it in range.
pub proof fn lemma_fx_mul_le(a: int, b: int)
    requires
        a >= 0,
        0 <= b <= FX_ONE as int,
    ensures
        0 <= fx_mul(a, b) <= a,
{
    assert(a * b >= 0 && a * b <= a * (FX_ONE as int)) by (nonlinear_arith)
        requires
            a >= 0,
            0 <= b <= FX_ONE as int,
    ;
    lemma_div_trunc_mag(a * b, FX_ONE as int);
    vstd::arithmetic::div_mod::lemma_div_pos_is_pos(a * b, FX_ONE as int);
    vstd::arithmetic::div_mod::lemma_div_is_ordered(a * b, a * (FX_ONE as int), FX_ONE as int);
    vstd::arithmetic::div_mod::lemma_div_multiples_vanish(a, FX_ONE as int);
}

/// A product of nonnegative values is nonnegative.
pub proof fn lemma_fx_mul_nonneg(a: int, b: int)
    requires
        a >= 0,
        b >= 0,
    ensures
        fx_mul(a, b) >= 0,
{
    assert(a * b >= 0) by (nonlinear_arith)
        requires
            a >= 0,
            b >= 0,
    ;
    lemma_div_trunc_mag(a * b, FX_ONE as int);
    vstd::arithmetic::div_mod::lemma_div_pos_is_pos(a * b, FX_ONE as int);
}

/// One is the neutral element of the fixed-point product.
pub proof fn lemma_fx_mul_one(a: int)
    ensures
        fx_mul(FX_ONE as int, a) == a,
        fx_mul(a, FX_ONE as int) == a,
{
    assert(mag((FX_ONE as int) * a) == (FX_ONE as int) * mag(a) && mag(a * (FX_ONE as int)) == (
    FX_ONE as int) * mag(a) && (((FX_ONE as int) * a < 0) == (a < 0)) && ((a * (FX_ONE as int) < 0)
        == (a < 0))) by (nonlinear_arith);
    vstd::arithmetic::div_mod::lemma_div_multiples_vanish(mag(a), FX_ONE as int);
}

/// The fixed-point product is commutative.
pub proof fn lemma_fx_mul_comm(a: int, b: int)
    ensures
        fx_mul(a, b) == fx_mul(b, a),
{
    assert(a * b == b * a) by (nonlinear_arith);
}

/// A nonnegative value whose square is bounded is itself bounded.
pub proof fn lemma_sq_le(r: int, k: int, b: int)
    by (nonlinear_arith)
    requires
        r >= 0,
        b >= 0,
        r * r <= k,
        k <= b * b,
    ensures
        r <= b,
{
}

/// A quotient of nonnegative by positive is nonnegative.
pub proof fn lemma_fx_div_pos(a: int, b: int)
    requires
        a >= 0,
        b > 0,
    ensures
        fx_div(a, b) >= 0,
{
    lemma_mul_mag(a, FX_ONE as int, a, FX_ONE as int);
    assert(a * (FX_ONE as int) >= 0) by (nonlinear_arith)
        requires
            a >= 0,
    ;
    vstd::arithmetic::div_mod::lemma_div_pos_is_pos(a * (FX_ONE as int), b);
}

/// A fixed-point scalar: the real value is `bits / FX_ONE`.
#[derive(Clone, Copy, PartialEq, Eq, Structural, Debug)]
pub struct Fx {
    pub bits: i64,
}

impl View for Fx {
    type V = int;

    open spec fn view(&self) -> int {
        self.bits as int
    }
}

/// Integer square root on `u128` by bisection.
pub(crate) fn isqrt_u128(n: u128) -> (r: u128)
    ensures
        is_sqrt_floor(n as int, r as int),
{
    let mut lo: u128 = 0;
    let mut hi: u128 = 0x1_0000_0000_0000_0000;
    proof {
        assert((0x1_0000_0000_0000_0000int) * (0x1_0000_0000_0000_0000int) > u128::MAX);
    }
    while lo + 1 < hi
        invariant
            lo < hi,
            hi <= 0x1_0000_0000_0000_0000,
            (lo as int) * (lo as int) <= n as int,
            (n as int) < (hi as int) * (hi as int),
        decreases hi - lo,
    {
        let mid: u128 = lo + (hi - lo) / 2;
        proof {
            lemma_mul_mag(mid as int, mid as int, 0xffff_ffff_ffff_ffff, 0xffff_ffff_ffff_ffff);
        }
        if mid * mid <= n {
            lo = mid;
        } else {
            hi = mid;
        }
    }
    lo
}

impl Fx {
    /// The value `numer / denom`, rounded toward zero at the last bit.
    pub fn from_ratio(numer: i64, denom: i64) -> (r: Fx)
        requires
            denom != 0,
            i64::MIN <= fx_div(numer as int, denom as int) <= i64::MAX,
        ensures
            r@ == fx_div(numer as int, denom as int),
    {
        Fx { bits: numer }.div(Fx { bits: denom })
    }

    pub fn add(self, rhs: Fx) -> (r: Fx)
        requires
            i64::MIN <= self@ + rhs@ <= i64::MAX,
        ensures
            r@ == self@ + rhs@,
    {
        Fx { bits: self.bits + rhs.bits }
    }

    pub fn sub(self, rhs: Fx) -> (r: Fx)
        requires
            i64::MIN <= self@ - rhs@ <= i64::MAX,
        ensures
            r@ == self@ - rhs@,
    {
        Fx { bits: self.bits - rhs.bits }
    }

    pub fn neg(self) -> (r: Fx)
        requires
            self@ != i64::MIN,
        ensures
            r@ == -self@,
    {
        Fx { bits: -self.bits }
    }

    pub fn mul(self, rhs: Fx) -> (r: Fx)
        requires
            i64::MIN <= fx_mul(self@, rhs@) <= i64::MAX,
        ensures
            r@ == fx_mul(self@, rhs@),
    {
        proof {
            lemma_mul_mag(self@, rhs@, 0x8000_0000_0000_0000, 0x8000_0000_0000_0000);
        }
        let p: i128 = (self.bits as i128) * (rhs.bits as i128);
        let neg: bool = p < 0;
        let m: u128 = if neg {
            (-p) as u128
        } else {
            p as u128
        };
        let q: u128 = m / 0x1_0000_0000u128;
        proof {
            lemma_div_trunc_mag(p as int, FX_ONE as int);
        }
        let bits: i128 = if neg {
            -(q as i128)
        } else {
            q as i128
        };
        Fx { bits: bits as i64 }
    }

    pub fn div(self, rhs: Fx) -> (r: Fx)
        requires
            rhs@ != 0,
            i64::MIN <= fx_div(self@, rhs@) <= i64::MAX,
        ensures
            r@ == fx_div(self@, rhs@),
    {
        match self.div_checked(rhs) {
            Some(r) => r,
            None => Fx { bits: 0 },
        }
    }

    /// Quotient, or `None` where the exact quotient falls outside `i64`.
    pub fn div_checked(self, rhs: Fx) -> (r: Option<Fx>)
        requires
            rhs@ != 0,
        ensures
            match r {
                Some(v) => v@ == fx_div(self@, rhs@) && i64::MIN <= fx_div(self@, rhs@)
                    <= i64::MAX,
                None => !(i64::MIN <= fx_div(self@, rhs@) <= i64::MAX),
            },
    {
        proof {
            lemma_mul_mag(self@, FX_ONE as int, 0x8000_0000_0000_0000, FX_ONE as int);
        }
        let p: i128 = (self.bits as i128) * (FX_ONE as i128);
        let neg: bool = (p < 0) != (rhs.bits < 0);
        let m: u128 = if p < 0 {
            (-p) as u128
        } else {
            p as u128
        };
        let d: u128 = if rhs.bits < 0 {
            (-(rhs.bits as i128)) as u128
        } else {
            rhs.bits as u128
        };
        let q: u128 = m / d;
        proof {
            assert(m as int == mag(p as int));
            assert(d as int == mag(rhs@));
            assert(q as int == mag(p as int) / mag(rhs@));
            vstd::arithmetic::div_mod::lemma_div_pos_is_pos(mag(p as int), mag(rhs@));
            assert(fx_div(self@, rhs@) == if neg {
                -(q as int)
            } else {
                q as int
            });
        }
        if neg {
            if q <= 0x8000_0000_0000_0000u128 {
                Some(Fx { bits: (-(q as i128)) as i64 })
            } else {
                None
            }
        } else {
            if q <= 0x7fff_ffff_ffff_ffffu128 {
                Some(Fx { bits: q as i64 })
            } else {
                None
            }
        }
    }

    /// Square root; the result is exact at the last bit (floor).
    pub fn sqrt(self) -> (r: Fx)
        requires
            self@ >= 0,
        ensures
            r@ == fx_sqrt(self@),
            r@ >= 0,
            r@ * r@ <= self@ * (FX_ONE as int),
    {
        let n: u128 = (self.bits as u128) * 0x1_0000_0000u128;
        let s: u128 = isqrt_u128(n);
        proof {
            lemma_sqrt_floor_unique(n as int, s as int);
            let big: int = 0x1_0000_0000_0000;
            assert((s as int) < big) by (nonlinear_arith)
                requires
                    is_sqrt_floor(n as int, s as int),
                    (n as int) < big * big,
                    big == 0x1_0000_0000_0000,
            ;
        }
        Fx { bits: s as i64 }
    }

    pub fn min(self, rhs: Fx) -> (r: Fx)
        ensures
            r@ == fx_min(self@, rhs@),
    {
        if self.bits <= rhs.bits {
            self
        } else {
            rhs
        }
    }

    pub fn max(self, rhs: Fx) -> (r: Fx)
        ensures
            r@ == fx_max(self@, rhs@),
    {
        if self.bits >= rhs.bits {
            self
        } else {
            rhs
        }
    }
}

} // verus!
