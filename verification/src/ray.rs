//! Parametric rays: an origin plus a scaled direction.

use vstd::prelude::*;

use crate::fixed::Fx;
use crate::vec3::{s_scale, s_vadd, Vec3};

verus! {

/// A ray `a + t * b` with origin `a` and direction `b`.
#[derive(Clone, Copy, Debug, PartialEq, Eq, Structural)]
pub struct Ray {
    pub a: Vec3,
    pub b: Vec3,
}

/// The point a parameter `t` along the ray: `a + t * b`.
pub open spec fn s_point_at(r: Ray, t: Fx) -> Vec3 {
    s_vadd(r.a, s_scale(r.b, t))
}

impl Ray {
    pub open spec fn ok(self) -> bool {
        self.a.ok() && self.b.ok()
    }

    pub fn new(a: Vec3, b: Vec3) -> (r: Ray)
        ensures
            r == (Ray { a, b }),
    {
        Ray { a, b }
    }

    pub fn origin(&self) -> (r: Vec3)
        ensures
            r == self.a,
    {
        self.a
    }

    pub fn direction(&self) -> (r: Vec3)
        ensures
            r == self.b,
    {
        self.b
    }

    pub fn point_at_param(&self, t: Fx) -> (r: Vec3)
        ensures
            r == s_point_at(*self, t),
    {
        self.a.vadd(self.b.scale(t))
    }
}

} // verus!
