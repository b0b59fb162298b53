//! The camera: maps normalized image-plane coordinates (and a lens-disk
//! sample, for depth of field) to world-space rays.
//!
//! A `Camera` is derived, immutable-per-frame state computed from a
//! [`CameraOpts`] configuration; it is recomputed whenever the configuration
//! changes and never mutated in place mid-frame.

use vstd::prelude::*;

use crate::fixed::{fx, s_div, s_mul, Fx, SCALE};
use crate::ray::Ray;
use crate::rng::{rand_in_unit_circle, s_rand_in_unit_circle, Rand64, REJECT_TRIES};
use crate::vec3::{s_cross, s_normalize, s_scale, s_vadd, s_vsub, Vec3};

verus! {

/// Camera construction parameters.
///
/// The field of view enters as `half_width`, the tangent of half the
/// horizontal field-of-view angle: converting degrees to a tangent is
/// floating-point trigonometry, which stays outside the fixed-point core, so
/// the embedding layer computes it once per configuration change.
#[derive(Clone, Copy, Debug, PartialEq, Eq, Structural)]
pub struct CameraOpts {
    pub origin: Vec3,
    pub direction: Vec3,
    pub vup: Vec3,
    /// Tangent of half the horizontal field of view.
    pub half_width: Fx,
    /// width:height ratio.
    pub aspect: Fx,
    pub aperture: Fx,
    pub focus_dist: Fx,
}

/// Derived per-frame camera state: an orthonormal-ish basis, the viewport
/// corner and spans, and the lens radius.
#[derive(Clone, Copy, Debug, PartialEq, Eq, Structural)]
pub struct Camera {
    pub lower_left_corner: Vec3,
    pub horizontal: Vec3,
    pub vertical: Vec3,
    pub origin: Vec3,
    pub u: Vec3,
    pub v: Vec3,
    pub w: Vec3,
    pub lens_radius: Fx,
}

/// The derived state `Camera::new` computes from a configuration.
pub open spec fn s_camera_new(opts: CameraOpts) -> Camera {
    let two = fx(2 * SCALE);
    let half_width = opts.half_width;
    let half_height = s_div(half_width, opts.aspect);
    let w = s_normalize(opts.direction);
    let u = s_normalize(s_cross(opts.vup, w));
    let v = s_cross(w, u);
    Camera {
        lower_left_corner: s_vsub(
            opts.origin,
            s_scale(
                s_vadd(s_vadd(s_scale(u, half_width), s_scale(v, half_height)), w),
                opts.focus_dist,
            ),
        ),
        horizontal: s_scale(u, s_mul(s_mul(two, half_width), opts.focus_dist)),
        vertical: s_scale(v, s_mul(s_mul(two, half_height), opts.focus_dist)),
        origin: opts.origin,
        u,
        v,
        w,
        lens_radius: s_div(opts.aperture, two),
    }
}

/// The ray `Camera::get_ray` builds for viewport coordinates `(du, dv)`,
/// together with the sampling state after the lens-disk draw.
pub open spec fn s_get_ray(c: Camera, du: Fx, dv: Fx, s: u64) -> (Ray, u64) {
    let (disk, s2) = s_rand_in_unit_circle(s, REJECT_TRIES as nat);
    let rd = s_scale(disk, c.lens_radius);
    let offset = s_vadd(s_scale(c.u, rd.x), s_scale(c.v, rd.y));
    let origin = s_vadd(c.origin, offset);
    (
        Ray {
            a: origin,
            b: s_vsub(
                s_vadd(s_vadd(c.lower_left_corner, s_scale(c.horizontal, du)), s_scale(c.vertical, dv)),
                origin,
            ),
        },
        s2,
    )
}

impl Camera {
    /// Returns a new camera.
    pub fn new(opts: CameraOpts) -> (c: Camera)
        ensures
            c == s_camera_new(opts),
    {
        let two = Fx::from_bits(2 * SCALE);
        let half_width = opts.half_width;
        let half_height = half_width.div(opts.aspect);
        let w = opts.direction.normalize();
        let u = opts.vup.cross(&w).normalize();
        let v = w.cross(&u);
        Camera {
            lower_left_corner: opts.origin.vsub(
                u.scale(half_width).vadd(v.scale(half_height)).vadd(w).scale(opts.focus_dist),
            ),
            horizontal: u.scale(two.mul(half_width).mul(opts.focus_dist)),
            vertical: v.scale(two.mul(half_height).mul(opts.focus_dist)),
            origin: opts.origin,
            u,
            v,
            w,
            lens_radius: opts.aperture.div(two),
        }
    }

    /// Return a ray corresponding to a particular point along the camera's
    /// conceptual "window" into the world; a lens-disk sample jitters the
    /// origin for depth of field (with a zero aperture the jitter is zero).
    pub fn get_ray(&self, du: Fx, dv: Fx, rng: &mut Rand64) -> (r: Ray)
        ensures
            r == s_get_ray(*self, du, dv, old(rng).state).0,
            final(rng).state == s_get_ray(*self, du, dv, old(rng).state).1,
    {
        let disk = rand_in_unit_circle(rng);
        let rd = disk.scale(self.lens_radius);
        let offset = self.u.scale(rd.x).vadd(self.v.scale(rd.y));
        let origin = self.origin.vadd(offset);
        Ray::new(
            origin,
            self.lower_left_corner.vadd(self.horizontal.scale(du)).vadd(
                self.vertical.scale(dv),
            ).vsub(origin),
        )
    }
}

} // verus!
