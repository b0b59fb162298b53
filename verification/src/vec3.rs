//! Three-component fixed-point vectors.
//!
//! Every executable operation returns exactly the value of its spec-level
//! mirror (`s_*`), so larger computations can be pinned down term by term.

use vstd::prelude::*;

use crate::fixed::{fx, s_add, s_div, s_mul, s_neg, s_one, s_sqrt, s_sub, Fx, SCALE};

verus! {

/// General purpose 3D vector over fixed-point scalars.
#[derive(Clone, Copy, Debug, PartialEq, Eq, Structural)]
pub struct Vec3 {
    pub x: Fx,
    pub y: Fx,
    pub z: Fx,
}

pub open spec fn s_vnew(x: Fx, y: Fx, z: Fx) -> Vec3 {
    Vec3 { x, y, z }
}

pub open spec fn s_vzero() -> Vec3 {
    Vec3 { x: Fx { bits: 0 }, y: Fx { bits: 0 }, z: Fx { bits: 0 } }
}

pub open spec fn s_vadd(u: Vec3, v: Vec3) -> Vec3 {
    Vec3 { x: s_add(u.x, v.x), y: s_add(u.y, v.y), z: s_add(u.z, v.z) }
}

pub open spec fn s_vsub(u: Vec3, v: Vec3) -> Vec3 {
    Vec3 { x: s_sub(u.x, v.x), y: s_sub(u.y, v.y), z: s_sub(u.z, v.z) }
}

pub open spec fn s_vneg(u: Vec3) -> Vec3 {
    Vec3 { x: s_neg(u.x), y: s_neg(u.y), z: s_neg(u.z) }
}

/// Componentwise scaling by the scalar `k`.
pub open spec fn s_scale(u: Vec3, k: Fx) -> Vec3 {
    Vec3 { x: s_mul(u.x, k), y: s_mul(u.y, k), z: s_mul(u.z, k) }
}

/// Componentwise (Hadamard) product, as used for attenuation of a color.
pub open spec fn s_vmul(u: Vec3, v: Vec3) -> Vec3 {
    Vec3 { x: s_mul(u.x, v.x), y: s_mul(u.y, v.y), z: s_mul(u.z, v.z) }
}

/// Componentwise division by the scalar `k`.
pub open spec fn s_vdiv(u: Vec3, k: Fx) -> Vec3 {
    Vec3 { x: s_div(u.x, k), y: s_div(u.y, k), z: s_div(u.z, k) }
}

/// Dot product, summed left to right as the executable code does.
pub open spec fn s_dot(u: Vec3, v: Vec3) -> Fx {
    s_add(s_add(s_mul(u.x, v.x), s_mul(u.y, v.y)), s_mul(u.z, v.z))
}

pub open spec fn s_cross(u: Vec3, v: Vec3) -> Vec3 {
    Vec3 {
        x: s_sub(s_mul(u.y, v.z), s_mul(u.z, v.y)),
        y: s_neg(s_sub(s_mul(u.x, v.z), s_mul(u.z, v.x))),
        z: s_sub(s_mul(u.x, v.y), s_mul(u.y, v.x)),
    }
}

pub open spec fn s_sqlen(u: Vec3) -> Fx {
    s_dot(u, u)
}

pub open spec fn s_len(u: Vec3) -> Fx {
    s_sqrt(s_sqlen(u))
}

/// The unit vector along `u`: scaling by the reciprocal of the length, with
/// the saturating reciprocal standing in for the undefined zero-length case.
pub open spec fn s_normalize(u: Vec3) -> Vec3 {
    s_scale(u, s_div(s_one(), s_len(u)))
}

/// Mirror reflection of `v` through the plane with normal `n`:
/// `v - 2*dot(v, n)*n`.
pub open spec fn s_reflect(v: Vec3, n: Vec3) -> Vec3 {
    s_vsub(v, s_scale(n, s_mul(fx(2 * SCALE), s_dot(v, n))))
}

impl Vec3 {
    /// Every component lies inside the representable band.
    pub open spec fn ok(self) -> bool {
        self.x.ok() && self.y.ok() && self.z.ok()
    }

    /// Create a new Vec3.
    pub fn new(x: Fx, y: Fx, z: Fx) -> (r: Vec3)
        ensures
            r == s_vnew(x, y, z),
    {
        Vec3 { x, y, z }
    }

    pub fn zero() -> (r: Vec3)
        ensures
            r == s_vzero(),
    {
        Vec3 { x: Fx { bits: 0 }, y: Fx { bits: 0 }, z: Fx { bits: 0 } }
    }

    pub fn vadd(self, v: Vec3) -> (r: Vec3)
        ensures
            r == s_vadd(self, v),
    {
        Vec3 { x: self.x.add(v.x), y: self.y.add(v.y), z: self.z.add(v.z) }
    }

    pub fn vsub(self, v: Vec3) -> (r: Vec3)
        ensures
            r == s_vsub(self, v),
    {
        Vec3 { x: self.x.sub(v.x), y: self.y.sub(v.y), z: self.z.sub(v.z) }
    }

    pub fn vneg(self) -> (r: Vec3)
        ensures
            r == s_vneg(self),
    {
        Vec3 { x: self.x.neg(), y: self.y.neg(), z: self.z.neg() }
    }

    pub fn scale(self, k: Fx) -> (r: Vec3)
        ensures
            r == s_scale(self, k),
    {
        Vec3 { x: self.x.mul(k), y: self.y.mul(k), z: self.z.mul(k) }
    }

    pub fn vmul(self, v: Vec3) -> (r: Vec3)
        ensures
            r == s_vmul(self, v),
    {
        Vec3 { x: self.x.mul(v.x), y: self.y.mul(v.y), z: self.z.mul(v.z) }
    }

    pub fn vdiv(self, k: Fx) -> (r: Vec3)
        ensures
            r == s_vdiv(self, k),
    {
        Vec3 { x: self.x.div(k), y: self.y.div(k), z: self.z.div(k) }
    }

    /// Dot product operator.
    pub fn dot(&self, v2: &Vec3) -> (r: Fx)
        ensures
            r == s_dot(*self, *v2),
    {
        self.x.mul(v2.x).add(self.y.mul(v2.y)).add(self.z.mul(v2.z))
    }

    /// Cross product operator.
    pub fn cross(&self, v2: &Vec3) -> (r: Vec3)
        ensures
            r == s_cross(*self, *v2),
    {
        Vec3 {
            x: self.y.mul(v2.z).sub(self.z.mul(v2.y)),
            y: self.x.mul(v2.z).sub(self.z.mul(v2.x)).neg(),
            z: self.x.mul(v2.y).sub(self.y.mul(v2.x)),
        }
    }

    /// Returns vector's absolute length squared.
    pub fn squared_length(&self) -> (r: Fx)
        ensures
            r == s_sqlen(*self),
    {
        self.dot(self)
    }

    /// Returns vector's absolute length.
    pub fn length(&self) -> (r: Fx)
        ensures
            r == s_len(*self),
    {
        self.squared_length().sqrt()
    }

    /// Returns vector's corresponding unit vector.
    pub fn normalize(&self) -> (r: Vec3)
        ensures
            r == s_normalize(*self),
    {
        let k = Fx::one().div(self.length());
        self.scale(k)
    }

    /// Mirror reflection of `self` through the plane with normal `n`.
    pub fn reflect_through(&self, n: &Vec3) -> (r: Vec3)
        ensures
            r == s_reflect(*self, *n),
    {
        let two = Fx::from_bits(2 * SCALE);
        self.vsub(n.scale(two.mul(self.dot(n))))
    }
}

/// Componentwise sums are always clipped back into the band.
pub proof fn lemma_vadd_ok(u: Vec3, v: Vec3)
    ensures
        s_vadd(u, v).ok(),
{
}

/// Componentwise differences are always clipped back into the band.
pub proof fn lemma_vsub_ok(u: Vec3, v: Vec3)
    ensures
        s_vsub(u, v).ok(),
{
}

} // verus!
