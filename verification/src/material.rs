//! Materials and scattering.
//!
//! A material answers: given an incoming ray and a hit point, does the ray
//! scatter, and with what attenuation and new ray?  `None` means the ray is
//! absorbed.  The variants form a closed set dispatched by matching, and each
//! `scatter` is pinned exactly to its spec mirror [`s_scatter`], including the
//! evolution of the sampling state.

use vstd::prelude::*;

use crate::fixed::{fx, s_add, s_div, s_mul, s_neg, s_sqrt, s_sub, Fx, SCALE};
use crate::hittable::HitRecord;
use crate::ray::Ray;
use crate::rng::{rand_in_unit_sphere, s_rand_in_unit_sphere, s_next, s_unit_of, Rand64, REJECT_TRIES};
use crate::vec3::{
    s_dot, s_len, s_normalize, s_reflect, s_scale, s_vadd, s_vneg, s_vsub, Vec3,
};

verus! {

/// Material that scatters incoming rays in random directions.
#[derive(Clone, Copy, Debug, PartialEq, Eq, Structural)]
pub struct Lambertian {
    pub albedo: Vec3,
}

/// Material that reflects incoming rays through the hit-point's normal.
#[derive(Clone, Copy, Debug, PartialEq, Eq, Structural)]
pub struct Metal {
    pub albedo: Vec3,
    pub fuzz: Fx,
}

/// Transmissive material with a Fresnel-weighted choice between reflection
/// and refraction.
#[derive(Clone, Copy, Debug, PartialEq, Eq, Structural)]
pub struct Dielectric {
    pub ref_idx: Fx,
}

/// Material that absorbs all incoming rays.
#[derive(Clone, Copy, Debug, PartialEq, Eq, Structural)]
pub struct Void;

/// The closed set of surface materials.
#[derive(Clone, Copy, Debug, PartialEq, Eq, Structural)]
pub enum Material {
    Dielectric(Dielectric),
    Lambertian(Lambertian),
    Metal(Metal),
    Void(Void),
}

/// A component lies in `[0, 1]`.
pub open spec fn unit_interval(a: Fx) -> bool {
    0 <= a.v() <= SCALE as int
}

/// Every attenuation component lies in `[0, 1]`.
pub open spec fn unit_box(v: Vec3) -> bool {
    unit_interval(v.x) && unit_interval(v.y) && unit_interval(v.z)
}

impl Material {
    /// Well-formedness of the physical parameters: albedos are fractions of
    /// retained light, fuzz is a fraction of a unit perturbation, and a
    /// refractive index is positive.
    pub open spec fn wf(self) -> bool {
        match self {
            Material::Lambertian(l) => unit_box(l.albedo),
            Material::Metal(m) => unit_box(m.albedo) && unit_interval(m.fuzz),
            Material::Dielectric(d) => d.ref_idx.v() > 0,
            Material::Void(_) => true,
        }
    }
}

impl Material {
    /// Runtime check of the same well-formedness.
    pub fn check(&self) -> (ok: bool)
        ensures
            ok == self.wf(),
    {
        match self {
            Material::Lambertian(l) => {
                0 <= l.albedo.x.bits && l.albedo.x.bits <= SCALE && 0 <= l.albedo.y.bits
                    && l.albedo.y.bits <= SCALE && 0 <= l.albedo.z.bits && l.albedo.z.bits <= SCALE
            },
            Material::Metal(m) => {
                0 <= m.albedo.x.bits && m.albedo.x.bits <= SCALE && 0 <= m.albedo.y.bits
                    && m.albedo.y.bits <= SCALE && 0 <= m.albedo.z.bits && m.albedo.z.bits <= SCALE
                    && 0 <= m.fuzz.bits && m.fuzz.bits <= SCALE
            },
            Material::Dielectric(d) => d.ref_idx.bits > 0,
            Material::Void(_) => true,
        }
    }
}

impl Lambertian {
    /// Return a new Lambertian material.
    pub fn new_material(albedo: Vec3) -> (r: Material)
        ensures
            r == Material::Lambertian(Lambertian { albedo }),
    {
        Material::Lambertian(Lambertian { albedo })
    }
}

impl Metal {
    /// Return a new Metal material.
    pub fn new_material(albedo: Vec3, fuzz: Fx) -> (r: Material)
        ensures
            r == Material::Metal(Metal { albedo, fuzz }),
    {
        Material::Metal(Metal { albedo, fuzz })
    }
}

impl Dielectric {
    /// Return a new Dielectric material, given its refractive index.
    pub fn new(ref_idx: Fx) -> (r: Dielectric)
        ensures
            r == (Dielectric { ref_idx }),
    {
        Dielectric { ref_idx }
    }

    /// Return a new Dielectric material, given its refractive index.
    pub fn new_material(ref_idx: Fx) -> (r: Material)
        ensures
            r == Material::Dielectric(Dielectric { ref_idx }),
    {
        Material::Dielectric(Dielectric { ref_idx })
    }
}

impl Void {
    /// Return a new Void material.
    pub fn new_material() -> (r: Material)
        ensures
            r == Material::Void(Void),
    {
        Material::Void(Void)
    }
}

/// Refraction of `v` through a surface with normal `n` and index ratio
/// `ni_over_nt`, by Snell's law; `None` when refraction is geometrically
/// impossible (total internal reflection).
pub open spec fn s_refract(v: Vec3, n: Vec3, ni_over_nt: Fx) -> Option<Vec3> {
    let uv = s_normalize(v);
    let dt = s_dot(uv, n);
    let discriminant = s_sub(
        crate::fixed::s_one(),
        s_mul(s_mul(ni_over_nt, ni_over_nt), s_sub(crate::fixed::s_one(), s_mul(dt, dt))),
    );
    if discriminant.v() > 0 {
        Some(
            s_vsub(
                s_scale(s_vsub(uv, s_scale(n, dt)), ni_over_nt),
                s_scale(n, s_sqrt(discriminant)),
            ),
        )
    } else {
        None
    }
}

/// Schlick's polynomial approximation of reflectivity varying by angle:
/// `r0 + (1 - r0) * (1 - cosine)^5` with `r0 = ((1 - ri) / (1 + ri))^2`.
pub open spec fn s_schlick(cosine: Fx, ref_idx: Fx) -> Fx {
    let one = crate::fixed::s_one();
    let t = s_div(s_sub(one, ref_idx), s_add(one, ref_idx));
    let r0 = s_mul(t, t);
    let q = s_sub(one, cosine);
    let q5 = s_mul(s_mul(s_mul(s_mul(q, q), q), q), q);
    s_add(r0, s_mul(s_sub(one, r0), q5))
}

/// The direction a metal surface reflects into: the mirror direction of the
/// normalized incoming ray, perturbed by `fuzz` times a unit-ball sample.
pub open spec fn s_metal_dir(m: Metal, r_in: Ray, normal: Vec3, s: u64) -> Vec3 {
    let (u, _) = s_rand_in_unit_sphere(s, REJECT_TRIES as nat);
    s_vadd(s_reflect(s_normalize(r_in.b), normal), s_scale(u, m.fuzz))
}

/// The direction a Lambertian surface scatters into: `normal` plus a
/// unit-ball sample, written as the offset from `p` to the sampled target.
pub open spec fn s_lambertian_dir(p: Vec3, normal: Vec3, s: u64) -> Vec3 {
    let (u, _) = s_rand_in_unit_sphere(s, REJECT_TRIES as nat);
    s_vsub(s_vadd(s_vadd(p, normal), u), p)
}

/// The scattered ray of a dielectric surface together with the sampling state
/// that follows it.  Refraction is attempted; under total internal reflection
/// the ray reflects outright (and no random draw is spent), otherwise one
/// uniform draw against Schlick's reflectance picks reflection or refraction.
pub open spec fn s_dielectric_scatter(d: Dielectric, r_in: Ray, rec_p: Vec3, rec_normal: Vec3, s: u64) -> (Ray, u64) {
    let one = crate::fixed::s_one();
    let reflected = s_reflect(r_in.b, rec_normal);
    let entering = s_dot(r_in.b, rec_normal).v() > 0;
    let outward_normal = if entering {
        s_vneg(rec_normal)
    } else {
        rec_normal
    };
    let ni_over_nt = if entering {
        d.ref_idx
    } else {
        s_div(one, d.ref_idx)
    };
    let cosine = if entering {
        s_div(s_mul(d.ref_idx, s_dot(r_in.b, rec_normal)), s_len(r_in.b))
    } else {
        s_div(s_neg(s_dot(r_in.b, rec_normal)), s_len(r_in.b))
    };
    match s_refract(r_in.b, outward_normal, ni_over_nt) {
        Some(refracted) => {
            let reflect_prob = s_schlick(cosine, d.ref_idx);
            let s2 = s_next(s);
            if s_unit_of(s2).v() < reflect_prob.v() {
                (Ray { a: rec_p, b: reflected }, s2)
            } else {
                (Ray { a: rec_p, b: refracted }, s2)
            }
        },
        None => (Ray { a: rec_p, b: reflected }, s),
    }
}

/// What `Material::scatter` returns and how it advances the sampling state.
pub open spec fn s_scatter(m: Material, r_in: Ray, rec_p: Vec3, rec_normal: Vec3, s: u64) -> (
    Option<(Vec3, Ray)>,
    u64,
) {
    match m {
        Material::Void(_) => (None, s),
        Material::Lambertian(l) => {
            let s2 = s_rand_in_unit_sphere(s, REJECT_TRIES as nat).1;
            (Some((l.albedo, Ray { a: rec_p, b: s_lambertian_dir(rec_p, rec_normal, s) })), s2)
        },
        Material::Metal(mt) => {
            let s2 = s_rand_in_unit_sphere(s, REJECT_TRIES as nat).1;
            let dir = s_metal_dir(mt, r_in, rec_normal, s);
            if s_dot(dir, rec_normal).v() > 0 {
                (Some((mt.albedo, Ray { a: rec_p, b: dir })), s2)
            } else {
                (None, s2)
            }
        },
        Material::Dielectric(d) => {
            let (scattered, s2) = s_dielectric_scatter(d, r_in, rec_p, rec_normal, s);
            let ones = Vec3 {
                x: crate::fixed::s_one(),
                y: crate::fixed::s_one(),
                z: crate::fixed::s_one(),
            };
            (Some((ones, scattered)), s2)
        },
    }
}

impl Material {
    /// Given an incoming ray and a hit record, returns `None` if the ray is
    /// absorbed, or `Some((attenuation, scattered ray))`; the result and the
    /// new sampling state are exactly those of [`s_scatter`].
    pub fn scatter(&self, r_in: &Ray, rec: &HitRecord, rng: &mut Rand64) -> (res: Option<
        (Vec3, Ray),
    >)
        ensures
            res == s_scatter(*self, *r_in, rec.p, rec.normal, old(rng).state).0,
            final(rng).state == s_scatter(*self, *r_in, rec.p, rec.normal, old(rng).state).1,
            self is Void ==> res is None,
            self is Lambertian ==> res is Some,
            self is Dielectric ==> res is Some,
            self.wf() && res is Some ==> unit_box(res.unwrap().0),
            res is Some ==> res.unwrap().1.a == rec.p,
    {
        match self {
            Material::Void(_) => None,
            Material::Lambertian(l) => {
                let u = rand_in_unit_sphere(rng);
                let target = rec.p.vadd(rec.normal).vadd(u);
                let scattered = Ray::new(rec.p, target.vsub(rec.p));
                Some((l.albedo, scattered))
            },
            Material::Metal(m) => {
                let reflected = r_in.direction().normalize().reflect_through(&rec.normal);
                let u = rand_in_unit_sphere(rng);
                let scattered = Ray::new(rec.p, reflected.vadd(u.scale(m.fuzz)));
                if scattered.direction().dot(&rec.normal).bits > 0 {
                    Some((m.albedo, scattered))
                } else {
                    None
                }
            },
            Material::Dielectric(d) => {
                let one = Fx::one();
                let reflected = r_in.direction().reflect_through(&rec.normal);
                let entering = r_in.direction().dot(&rec.normal).bits > 0;
                let outward_normal = if entering {
                    rec.normal.vneg()
                } else {
                    rec.normal
                };
                let ni_over_nt = if entering {
                    d.ref_idx
                } else {
                    one.div(d.ref_idx)
                };
                let cosine = if entering {
                    d.ref_idx.mul(r_in.direction().dot(&rec.normal)).div(
                        r_in.direction().length(),
                    )
                } else {
                    r_in.direction().dot(&rec.normal).neg().div(r_in.direction().length())
                };
                let scattered = match refract(&r_in.b, &outward_normal, ni_over_nt) {
                    Some(refracted) => {
                        let reflect_prob = schlick(cosine, d.ref_idx);
                        if rng.next_unit().bits < reflect_prob.bits {
                            Ray::new(rec.p, reflected)
                        } else {
                            Ray::new(rec.p, refracted)
                        }
                    },
                    None => Ray::new(rec.p, reflected),
                };
                let attenuation = Vec3::new(one, one, one);
                Some((attenuation, scattered))
            },
        }
    }
}

/// Returns a vector's refraction through a surface with a normal `n` and a
/// refractive index ratio of `ni_over_nt`, or `None` under total internal
/// reflection.
fn refract(v: &Vec3, n: &Vec3, ni_over_nt: Fx) -> (res: Option<Vec3>)
    ensures
        res == s_refract(*v, *n, ni_over_nt),
{
    let one = Fx::one();
    let uv = v.normalize();
    let dt = uv.dot(n);
    let discriminant = one.sub(ni_over_nt.mul(ni_over_nt).mul(one.sub(dt.mul(dt))));
    if discriminant.bits > 0 {
        Some(uv.vsub(n.scale(dt)).scale(ni_over_nt).vsub(n.scale(discriminant.sqrt())))
    } else {
        None
    }
}

/// Polynomial approximation of reflectivity that varies by angle, by
/// Christophe Schlick.
fn schlick(cosine: Fx, ref_idx: Fx) -> (r: Fx)
    ensures
        r == s_schlick(cosine, ref_idx),
{
    let one = Fx::one();
    let t = one.sub(ref_idx).div(one.add(ref_idx));
    let r0 = t.mul(t);
    let q = one.sub(cosine);
    let q5 = q.mul(q).mul(q).mul(q).mul(q);
    r0.add(one.sub(r0).mul(q5))
}

/// A scattered ray keeps in-band coordinates: its origin is the hit point
/// and its direction comes out of clipped vector arithmetic.
pub proof fn lemma_scatter_ray_ok(m: Material, r_in: Ray, rec_p: Vec3, rec_normal: Vec3, s: u64)
    requires
        rec_p.ok(),
    ensures
        match s_scatter(m, r_in, rec_p, rec_normal, s).0 {
            Some(pair) => pair.1.a.ok() && pair.1.b.ok(),
            None => true,
        },
{
    match m {
        Material::Void(_) => {},
        Material::Lambertian(_) => {
            let u = crate::rng::s_rand_in_unit_sphere(s, REJECT_TRIES as nat).0;
            crate::vec3::lemma_vsub_ok(s_vadd(s_vadd(rec_p, rec_normal), u), rec_p);
        },
        Material::Metal(mt) => {
            let u = crate::rng::s_rand_in_unit_sphere(s, REJECT_TRIES as nat).0;
            crate::vec3::lemma_vadd_ok(
                s_reflect(s_normalize(r_in.b), rec_normal),
                s_scale(u, mt.fuzz),
            );
        },
        Material::Dielectric(d) => {
            let entering = s_dot(r_in.b, rec_normal).v() > 0;
            let outward_normal = if entering {
                s_vneg(rec_normal)
            } else {
                rec_normal
            };
            let ni_over_nt = if entering {
                d.ref_idx
            } else {
                s_div(crate::fixed::s_one(), d.ref_idx)
            };
            crate::vec3::lemma_vsub_ok(
                r_in.b,
                s_scale(
                    rec_normal,
                    s_mul(fx(2 * SCALE), s_dot(r_in.b, rec_normal)),
                ),
            );
            match s_refract(r_in.b, outward_normal, ni_over_nt) {
                Some(refracted) => {
                    let uv = s_normalize(r_in.b);
                    let dt = s_dot(uv, outward_normal);
                    let discriminant = s_sub(
                        crate::fixed::s_one(),
                        s_mul(
                            s_mul(ni_over_nt, ni_over_nt),
                            s_sub(crate::fixed::s_one(), s_mul(dt, dt)),
                        ),
                    );
                    crate::vec3::lemma_vsub_ok(
                        s_scale(s_vsub(uv, s_scale(outward_normal, dt)), ni_over_nt),
                        s_scale(outward_normal, s_sqrt(discriminant)),
                    );
                },
                None => {},
            }
        },
    }
}

/// The scattering laws: Lambertian and Dielectric materials always scatter,
/// Void always absorbs, and Metal absorbs exactly when the perturbed mirror
/// direction points into the surface (its dot product with the normal is not
/// positive).
pub proof fn lemma_scatter_totality(m: Material, r_in: Ray, rec_p: Vec3, rec_normal: Vec3, s: u64)
    ensures
        m is Void ==> s_scatter(m, r_in, rec_p, rec_normal, s).0 is None,
        m is Lambertian ==> s_scatter(m, r_in, rec_p, rec_normal, s).0 is Some,
        m is Dielectric ==> s_scatter(m, r_in, rec_p, rec_normal, s).0 is Some,
        m matches Material::Metal(mt) ==> ((s_scatter(m, r_in, rec_p, rec_normal, s).0 is None)
            <==> s_dot(s_metal_dir(mt, r_in, rec_normal, s), rec_normal).v() <= 0),
{
}

} // verus!
