//! Geometry and ray intersection.
//!
//! Every shape answers: does ray `r` intersect me within the half-open
//! parametric range `[t_min, t_max)`, and if so with what hit data?  The
//! sphere solves its quadratic over exact wide integers, so the roots the
//! contract names are the roots the code returns; the composite list performs
//! the standard closest-hit reduction, shrinking the upper bound to the best
//! parameter found so far.

use vstd::prelude::*;

use crate::fixed::{
    fx, is_isqrt, isqrt_i128, isqrt_spec, lemma_clip_ordered, lemma_isqrt_exists,
    lemma_isqrt_unique, lemma_prod_bound, lemma_tdiv_ordered, ratio_to_fx, s_div as s_fxdiv, tdiv,
    Fx, LIM, SCALE,
};
use crate::material::Material;
use crate::ray::{s_point_at, Ray};
use crate::vec3::{s_dot, s_vdiv, s_vsub, Vec3};

verus! {

/// Container for hit information: the parameter along the ray, the hit
/// point, the surface normal there, and the surface's material.
#[derive(Clone, Copy, Debug, PartialEq, Eq, Structural)]
pub struct HitRecord {
    /// Position along ray.
    pub t: Fx,
    /// Hit point.
    pub p: Vec3,
    /// Hit normal.
    pub normal: Vec3,
    /// Material of the surface that was hit.
    pub material: Material,
}

/// A sphere, possibly with a negative radius: the surface is the same but
/// the normal flips inward, which models hollow shells.
#[derive(Clone, Copy, Debug, PartialEq, Eq, Structural)]
pub struct Sphere {
    pub center: Vec3,
    pub radius: Fx,
    pub material: Material,
}

/// An infinitely flat plane through `center` with the given normal.
#[derive(Clone, Copy, Debug, PartialEq, Eq, Structural)]
pub struct InfPlane {
    pub center: Vec3,
    pub normal: Vec3,
    pub material: Material,
}

/// Dummy hittable that's never actually hit.
#[derive(Clone, Copy, Debug, PartialEq, Eq, Structural)]
pub struct Dummy;

/// The closed set of shapes a world can hold.
#[derive(Clone, Copy, Debug, PartialEq, Eq, Structural)]
pub enum Hittables {
    Sphere(Sphere),
    InfPlane(InfPlane),
}

/// `t` lies in the half-open query range.
pub open spec fn s_hit_between(t: Fx, t_min: Fx, t_max: Fx) -> bool {
    t_min.v() <= t.v() < t_max.v()
}

/// Quadratic coefficient `a = dot(d, d)` of `|o + t*d - c|^2 = rad^2`, over
/// the raw fixed-point units (no clipping, no rescaling).
pub open spec fn sph_a(r: Ray) -> int {
    r.b.x.v() * r.b.x.v() + r.b.y.v() * r.b.y.v() + r.b.z.v() * r.b.z.v()
}

pub open spec fn sph_ocx(s: Sphere, r: Ray) -> int {
    r.a.x.v() - s.center.x.v()
}

pub open spec fn sph_ocy(s: Sphere, r: Ray) -> int {
    r.a.y.v() - s.center.y.v()
}

pub open spec fn sph_ocz(s: Sphere, r: Ray) -> int {
    r.a.z.v() - s.center.z.v()
}

/// Quadratic coefficient `b = 2 * dot(o - c, d)`.
pub open spec fn sph_b(s: Sphere, r: Ray) -> int {
    2 * (sph_ocx(s, r) * r.b.x.v() + sph_ocy(s, r) * r.b.y.v() + sph_ocz(s, r) * r.b.z.v())
}

/// Squared distance from the ray origin to the center, in raw units.
pub open spec fn sph_oc_sq(s: Sphere, r: Ray) -> int {
    sph_ocx(s, r) * sph_ocx(s, r) + sph_ocy(s, r) * sph_ocy(s, r) + sph_ocz(s, r) * sph_ocz(s, r)
}

/// Quadratic coefficient `c = dot(o - c, o - c) - rad^2`.
pub open spec fn sph_c(s: Sphere, r: Ray) -> int {
    sph_oc_sq(s, r) - s.radius.v() * s.radius.v()
}

/// Discriminant `b^2 - 4*a*c`.
pub open spec fn sph_disc(s: Sphere, r: Ray) -> int {
    sph_b(s, r) * sph_b(s, r) - 4 * (sph_a(r) * sph_c(s, r))
}

/// The smaller quadratic root `(-b - sqrt(disc)) / (2a)`, as a fixed-point
/// parameter.
pub open spec fn sph_root1(s: Sphere, r: Ray) -> Fx {
    fx(tdiv((-sph_b(s, r) - isqrt_spec(sph_disc(s, r))) * SCALE, 2 * sph_a(r)))
}

/// The larger quadratic root `(-b + sqrt(disc)) / (2a)`.
pub open spec fn sph_root2(s: Sphere, r: Ray) -> Fx {
    fx(tdiv((-sph_b(s, r) + isqrt_spec(sph_disc(s, r))) * SCALE, 2 * sph_a(r)))
}

/// The hit record a sphere reports for parameter `t`: the point along the
/// ray and the normal `(p - center) / radius`, whose sign naturally flips
/// for a negative radius.
pub open spec fn s_sphere_rec(s: Sphere, r: Ray, t: Fx) -> HitRecord {
    let p = s_point_at(r, t);
    HitRecord { t, p, normal: s_vdiv(s_vsub(p, s.center), s.radius), material: s.material }
}

/// What `Sphere::hit` returns: the smaller root if it lies in range, else
/// the larger root if it does, else nothing; degenerate rays (`a = 0`) and
/// non-positive discriminants never hit.
pub open spec fn s_sphere_hit(s: Sphere, r: Ray, t_min: Fx, t_max: Fx) -> Option<HitRecord> {
    if sph_disc(s, r) > 0 && sph_a(r) > 0 {
        if s_hit_between(sph_root1(s, r), t_min, t_max) {
            Some(s_sphere_rec(s, r, sph_root1(s, r)))
        } else if s_hit_between(sph_root2(s, r), t_min, t_max) {
            Some(s_sphere_rec(s, r, sph_root2(s, r)))
        } else {
            None
        }
    } else {
        None
    }
}

/// What `InfPlane::hit` returns: `t = dot(center - origin, normal) / dot(normal, direction)`
/// when it lies in range; a ray parallel to the plane (zero denominator)
/// never hits.
pub open spec fn s_plane_hit(pl: InfPlane, r: Ray, t_min: Fx, t_max: Fx) -> Option<HitRecord> {
    let denom = s_dot(pl.normal, r.b);
    if denom.v() == 0 {
        None
    } else {
        let t = s_fxdiv(s_dot(s_vsub(pl.center, r.a), pl.normal), denom);
        if s_hit_between(t, t_min, t_max) {
            Some(HitRecord { t, p: s_point_at(r, t), normal: pl.normal, material: pl.material })
        } else {
            None
        }
    }
}

/// Dispatch over the closed shape set.
pub open spec fn s_geom_hit(g: Hittables, r: Ray, t_min: Fx, t_max: Fx) -> Option<HitRecord> {
    match g {
        Hittables::Sphere(s) => s_sphere_hit(s, r, t_min, t_max),
        Hittables::InfPlane(pl) => s_plane_hit(pl, r, t_min, t_max),
    }
}

impl Sphere {
    /// All coordinates lie inside the representable band.
    pub open spec fn wf(self) -> bool {
        self.center.ok() && self.radius.ok()
    }

    /// Create a new sphere with a specified `center` and `radius`.
    pub fn new_hittable(center: Vec3, radius: Fx, material: Material) -> (r: Hittables)
        ensures
            r == Hittables::Sphere(Sphere { center, radius, material }),
    {
        Hittables::Sphere(Sphere { center, radius, material })
    }

    pub fn hit(&self, r: &Ray, t_min: Fx, t_max: Fx) -> (res: Option<HitRecord>)
        requires
            self.wf(),
            r.ok(),
        ensures
            res == s_sphere_hit(*self, *r, t_min, t_max),
    {
        let dx = r.b.x.bits as i128;
        let dy = r.b.y.bits as i128;
        let dz = r.b.z.bits as i128;
        let ocx = (r.a.x.bits as i128) - (self.center.x.bits as i128);
        let ocy = (r.a.y.bits as i128) - (self.center.y.bits as i128);
        let ocz = (r.a.z.bits as i128) - (self.center.z.bits as i128);
        let rad = self.radius.bits as i128;
        proof {
            lemma_prod_bound(dx as int, dx as int, 0x1000_0000, 0x1000_0000);
            lemma_prod_bound(dy as int, dy as int, 0x1000_0000, 0x1000_0000);
            lemma_prod_bound(dz as int, dz as int, 0x1000_0000, 0x1000_0000);
            lemma_prod_bound(ocx as int, dx as int, 0x2000_0000, 0x1000_0000);
            lemma_prod_bound(ocy as int, dy as int, 0x2000_0000, 0x1000_0000);
            lemma_prod_bound(ocz as int, dz as int, 0x2000_0000, 0x1000_0000);
            lemma_prod_bound(ocx as int, ocx as int, 0x2000_0000, 0x2000_0000);
            lemma_prod_bound(ocy as int, ocy as int, 0x2000_0000, 0x2000_0000);
            lemma_prod_bound(ocz as int, ocz as int, 0x2000_0000, 0x2000_0000);
            lemma_prod_bound(rad as int, rad as int, 0x1000_0000, 0x1000_0000);
        }
        let a = dx * dx + dy * dy + dz * dz;
        let b = 2 * (ocx * dx + ocy * dy + ocz * dz);
        let c = (ocx * ocx + ocy * ocy + ocz * ocz) - rad * rad;
        proof {
            lemma_prod_bound(
                b as int,
                b as int,
                0x1000_0000_0000_0000,
                0x1000_0000_0000_0000,
            );
            lemma_prod_bound(
                a as int,
                c as int,
                0x400_0000_0000_0000,
                0x1000_0000_0000_0000,
            );
        }
        let discriminant = b * b - 4 * (a * c);
        if discriminant > 0 && a > 0 {
            let sd = isqrt_i128(discriminant);
            proof {
                assert((sd as int) < 0x2000_0000_0000_0000) by (nonlinear_arith)
                    requires
                        0 <= sd as int,
                        (sd as int) * (sd as int) <= discriminant as int,
                        (discriminant as int) < 0x400_0000_0000_0000_0000_0000_0000_0000,
                ;
            }
            let root1 = ratio_to_fx(-b - sd, 2 * a);
            if t_min.bits <= root1.bits && root1.bits < t_max.bits {
                let p = r.point_at_param(root1);
                let normal = p.vsub(self.center).vdiv(self.radius);
                return Some(HitRecord { t: root1, p, normal, material: self.material });
            }
            let root2 = ratio_to_fx(-b + sd, 2 * a);
            if t_min.bits <= root2.bits && root2.bits < t_max.bits {
                let p = r.point_at_param(root2);
                let normal = p.vsub(self.center).vdiv(self.radius);
                return Some(HitRecord { t: root2, p, normal, material: self.material });
            }
            None
        } else {
            None
        }
    }
}

impl InfPlane {
    /// All coordinates lie inside the representable band.
    pub open spec fn wf(self) -> bool {
        self.center.ok() && self.normal.ok()
    }

    /// Create a new infinite plane with a specified `center` and `normal`.
    pub fn new_hittable(center: Vec3, normal: Vec3, material: Material) -> (r: Hittables)
        ensures
            r == Hittables::InfPlane(InfPlane { center, normal, material }),
    {
        Hittables::InfPlane(InfPlane { center, normal, material })
    }

    pub fn hit(&self, r: &Ray, t_min: Fx, t_max: Fx) -> (res: Option<HitRecord>)
        ensures
            res == s_plane_hit(*self, *r, t_min, t_max),
    {
        let denominator = self.normal.dot(&r.b);
        if denominator.bits == 0 {
            return None;
        }
        let t = self.center.vsub(r.a).dot(&self.normal).div(denominator);
        if t_min.bits <= t.bits && t.bits < t_max.bits {
            let p = r.point_at_param(t);
            return Some(HitRecord { t, p, normal: self.normal, material: self.material });
        }
        None
    }
}

impl Dummy {
    /// A dummy never reports a hit.
    pub fn hit(&self, r: &Ray, t_min: Fx, t_max: Fx) -> (res: Option<HitRecord>)
        ensures
            res is None,
    {
        let _ = r;
        let _ = t_min;
        let _ = t_max;
        None
    }
}

impl Hittables {
    pub open spec fn wf(self) -> bool {
        match self {
            Hittables::Sphere(s) => s.wf(),
            Hittables::InfPlane(pl) => pl.wf(),
        }
    }

    /// The material of the shape's surface.
    pub open spec fn material(self) -> Material {
        match self {
            Hittables::Sphere(s) => s.material,
            Hittables::InfPlane(pl) => pl.material,
        }
    }

    /// Check if object is hit by ray `r` within `[t_min, t_max)`; any
    /// reported parameter lies inside that half-open range.
    pub fn hit(&self, r: &Ray, t_min: Fx, t_max: Fx) -> (res: Option<HitRecord>)
        requires
            self.wf(),
            r.ok(),
        ensures
            res == s_geom_hit(*self, *r, t_min, t_max),
            match res {
                Some(rec) => t_min.v() <= rec.t.v() < t_max.v(),
                None => true,
            },
    {
        match self {
            Hittables::Sphere(s) => s.hit(r, t_min, t_max),
            Hittables::InfPlane(pl) => pl.hit(r, t_min, t_max),
        }
    }
}

/// Every shape of the world lies inside the representable band.
pub open spec fn world_wf(objs: Seq<Hittables>) -> bool {
    forall|i: int| 0 <= i < objs.len() ==> (#[trigger] objs[i]).wf()
}

/// Every material of the world carries well-formed physical parameters
/// (albedos in the unit box, fuzz in the unit interval, a positive
/// refractive index).
pub open spec fn world_mats_wf(objs: Seq<Hittables>) -> bool {
    forall|i: int| 0 <= i < objs.len() ==> (#[trigger] objs[i]).material().wf()
}

/// `res` is the closest-hit reduction of the children's individual hits over
/// the full range: nothing hits and `res` is `None`, or `res` is one of the
/// children's hits and no child hits strictly closer.
pub open spec fn s_closest_hit(
    objs: Seq<Hittables>,
    r: Ray,
    t_min: Fx,
    t_max: Fx,
    res: Option<HitRecord>,
) -> bool {
    match res {
        None => forall|i: int|
            0 <= i < objs.len() ==> (#[trigger] s_geom_hit(objs[i], r, t_min, t_max)) is None,
        Some(rec) => {
            &&& exists|i: int|
                0 <= i < objs.len() && #[trigger] s_geom_hit(objs[i], r, t_min, t_max) == Some(rec)
            &&& forall|i: int|
                0 <= i < objs.len() ==> match #[trigger] s_geom_hit(objs[i], r, t_min, t_max) {
                    Some(o) => rec.t.v() <= o.t.v(),
                    None => true,
                }
        },
    }
}

/// The closest-hit reduction over the first `n` children, exactly as the
/// executable loop computes it: each child is queried with the upper bound
/// narrowed to the best parameter found so far.
pub open spec fn s_world_hit_prefix(
    objs: Seq<Hittables>,
    r: Ray,
    t_min: Fx,
    t_max: Fx,
    n: nat,
) -> Option<HitRecord>
    decreases n,
{
    if n == 0 {
        None::<HitRecord>
    } else {
        let prev = s_world_hit_prefix(objs, r, t_min, t_max, (n - 1) as nat);
        let bound = match prev {
            Some(rec) => rec.t,
            None => t_max,
        };
        match s_geom_hit(objs[n as int - 1], r, t_min, bound) {
            Some(h) => Some(h),
            None => prev,
        }
    }
}

/// What `hit_world` returns.
pub open spec fn s_world_hit(objs: Seq<Hittables>, r: Ray, t_min: Fx, t_max: Fx) -> Option<
    HitRecord,
> {
    s_world_hit_prefix(objs, r, t_min, t_max, objs.len())
}

/// A single shape's hit record carries in-band coordinates: the point is
/// assembled from clipped arithmetic and the normal is either clipped or a
/// well-formed plane normal.
pub proof fn lemma_geom_rec_ok(g: Hittables, r: Ray, t_min: Fx, t_max: Fx)
    requires
        g.wf(),
    ensures
        match s_geom_hit(g, r, t_min, t_max) {
            Some(rec) => rec.p.ok() && rec.normal.ok() && rec.material == g.material(),
            None => true,
        },
{
    match g {
        Hittables::Sphere(s) => {
            if s_geom_hit(g, r, t_min, t_max) is Some {
                let rec = s_geom_hit(g, r, t_min, t_max)->Some_0;
                crate::fixed::lemma_fx_ok(rec.p.x.v());
                crate::fixed::lemma_s_div_ok(crate::fixed::s_sub(rec.p.x, s.center.x), s.radius);
                crate::fixed::lemma_s_div_ok(crate::fixed::s_sub(rec.p.y, s.center.y), s.radius);
                crate::fixed::lemma_s_div_ok(crate::fixed::s_sub(rec.p.z, s.center.z), s.radius);
            }
        },
        Hittables::InfPlane(_) => {},
    }
}

/// The closest-hit reduction only ever returns records with in-band
/// coordinates, carrying the material of one of the world's shapes.
pub proof fn lemma_world_hit_rec_ok(objs: Seq<Hittables>, r: Ray, t_min: Fx, t_max: Fx, n: nat)
    requires
        world_wf(objs),
        n <= objs.len(),
    ensures
        match s_world_hit_prefix(objs, r, t_min, t_max, n) {
            Some(rec) => rec.p.ok() && rec.normal.ok() && (world_mats_wf(objs)
                ==> rec.material.wf()),
            None => true,
        },
    decreases n,
{
    if n > 0 {
        lemma_world_hit_rec_ok(objs, r, t_min, t_max, (n - 1) as nat);
        let prev = s_world_hit_prefix(objs, r, t_min, t_max, (n - 1) as nat);
        let bound = match prev {
            Some(rec) => rec.t,
            None => t_max,
        };
        lemma_geom_rec_ok(objs[n as int - 1], r, t_min, bound);
    }
}

/// Any reported hit parameter lies inside the half-open query range.
pub proof fn lemma_hit_within_range(g: Hittables, r: Ray, t_min: Fx, t_max: Fx)
    ensures
        match s_geom_hit(g, r, t_min, t_max) {
            Some(rec) => t_min.v() <= rec.t.v() < t_max.v(),
            None => true,
        },
{
}

/// A ray that starts on a sphere's surface (origin-to-center distance equal
/// to the radius, exactly) and points toward the center hits at `t = 0`
/// whenever the valid range includes 0; the hit point is the ray's origin and
/// the normal is the vector from the center to that point, scaled by the
/// reciprocal radius.
pub proof fn lemma_sphere_surface_origin_hit(s: Sphere, r: Ray, t_min: Fx, t_max: Fx)
    requires
        r.ok(),
        sph_oc_sq(s, r) == s.radius.v() * s.radius.v(),
        sph_b(s, r) < 0,
        sph_a(r) > 0,
        t_min.v() <= 0 < t_max.v(),
    ensures
        s_sphere_hit(s, r, t_min, t_max) == Some(s_sphere_rec(s, r, Fx { bits: 0 })),
        s_sphere_rec(s, r, Fx { bits: 0 }).t.v() == 0,
        s_sphere_rec(s, r, Fx { bits: 0 }).p == r.a,
        s_sphere_rec(s, r, Fx { bits: 0 }).normal == s_vdiv(s_vsub(r.a, s.center), s.radius),
{
    let b = sph_b(s, r);
    let a = sph_a(r);
    assert(sph_c(s, r) == 0);
    assert(a * 0 == 0) by (nonlinear_arith);
    assert(sph_disc(s, r) == b * b);
    assert(b * b > 0) by (nonlinear_arith)
        requires
            b < 0,
    ;
    assert((-b) * (-b) == b * b) by (nonlinear_arith);
    assert(b * b < (-b + 1) * (-b + 1)) by (nonlinear_arith)
        requires
            b < 0,
    ;
    assert(is_isqrt(-b, b * b));
    lemma_isqrt_exists(b * b);
    lemma_isqrt_unique(-b, isqrt_spec(b * b), b * b);
    assert((-b - isqrt_spec(sph_disc(s, r))) * SCALE == 0);
    assert(tdiv(0, 2 * a) == 0);
    assert(sph_root1(s, r) == Fx { bits: 0 });
    assert(s_hit_between(Fx { bits: 0 }, t_min, t_max));
    assert(s_point_at(r, Fx { bits: 0 }) == r.a);
}

/// The two quadratic roots are ordered: the "minus" root is never past the
/// "plus" root.
pub proof fn lemma_sphere_roots_ordered(s: Sphere, r: Ray)
    requires
        sph_disc(s, r) > 0,
        sph_a(r) > 0,
    ensures
        sph_root1(s, r).v() <= sph_root2(s, r).v(),
{
    lemma_isqrt_exists(sph_disc(s, r));
    let sd = isqrt_spec(sph_disc(s, r));
    let num1 = (-sph_b(s, r) - sd) * SCALE;
    let num2 = (-sph_b(s, r) + sd) * SCALE;
    assert(num1 <= num2) by (nonlinear_arith)
        requires
            sd >= 0,
            num1 == (-sph_b(s, r) - sd) * SCALE,
            num2 == (-sph_b(s, r) + sd) * SCALE,
    ;
    lemma_tdiv_ordered(num1, num2, 2 * sph_a(r));
    lemma_clip_ordered(tdiv(num1, 2 * sph_a(r)), tdiv(num2, 2 * sph_a(r)));
}

/// Shrinking the upper bound of the query range keeps exactly the hits whose
/// parameter beats the new bound: the narrowing step of the closest-hit
/// reduction loses nothing and invents nothing.
pub proof fn lemma_geom_hit_narrow(g: Hittables, r: Ray, t_min: Fx, bound: Fx, t_max: Fx)
    requires
        bound.v() <= t_max.v(),
    ensures
        s_geom_hit(g, r, t_min, bound) == (match s_geom_hit(g, r, t_min, t_max) {
            Some(rec) => if rec.t.v() < bound.v() {
                Some(rec)
            } else {
                None::<HitRecord>
            },
            None => None::<HitRecord>,
        }),
{
    match g {
        Hittables::Sphere(s) => {
            if sph_disc(s, r) > 0 && sph_a(r) > 0 {
                lemma_sphere_roots_ordered(s, r);
            }
        },
        Hittables::InfPlane(_) => {},
    }
}

/// Returns the `HitRecord` of the closest hittable object, by the standard
/// reduction that narrows the search range's upper bound to the best
/// parameter seen so far.
pub fn hit_world(objs: &Vec<Hittables>, r: &Ray, t_min: Fx, t_max: Fx) -> (res: Option<HitRecord>)
    requires
        world_wf(objs@),
        r.ok(),
    ensures
        res == s_world_hit(objs@, *r, t_min, t_max),
        s_closest_hit(objs@, *r, t_min, t_max, res),
        match res {
            Some(rec) => t_min.v() <= rec.t.v() < t_max.v(),
            None => true,
        },
{
    let mut temp_rec: Option<HitRecord> = None;
    let mut closest_so_far: Fx = t_max;
    let mut i: usize = 0;
    while i < objs.len()
        invariant
            world_wf(objs@),
            r.ok(),
            i <= objs@.len(),
            closest_so_far == (match temp_rec {
                Some(rec) => rec.t,
                None => t_max,
            }),
            closest_so_far.v() <= t_max.v(),
            temp_rec is None ==> forall|j: int|
                0 <= j < i as int ==> (#[trigger] s_geom_hit(objs@[j], *r, t_min, t_max)) is None,
            temp_rec matches Some(rec) ==> exists|j: int|
                0 <= j < i as int && #[trigger] s_geom_hit(objs@[j], *r, t_min, t_max) == Some(rec),
            temp_rec matches Some(rec) ==> forall|j: int|
                0 <= j < i as int ==> match #[trigger] s_geom_hit(objs@[j], *r, t_min, t_max) {
                    Some(o) => rec.t.v() <= o.t.v(),
                    None => true,
                },
            temp_rec matches Some(rec) ==> t_min.v() <= rec.t.v() < t_max.v(),
            temp_rec == s_world_hit_prefix(objs@, *r, t_min, t_max, i as nat),
        decreases objs@.len() - i,
    {
        let g = objs[i];
        let h = g.hit(r, t_min, closest_so_far);
        proof {
            lemma_geom_hit_narrow(objs@[i as int], *r, t_min, closest_so_far, t_max);
            lemma_hit_within_range(objs@[i as int], *r, t_min, t_max);
        }
        if let Some(rec) = h {
            closest_so_far = rec.t;
            temp_rec = Some(rec);
        }
        i = i + 1;
    }
    temp_rec
}

} // verus!
