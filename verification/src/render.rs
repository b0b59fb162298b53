//! The path integrator and per-pixel rendering.
//!
//! [`color`] traces a ray, intersects the scene, consults the hit material
//! and recurses on the scattered ray up to a fixed depth cap; with no hit it
//! returns the vertical background gradient.  [`render_pixel`] averages
//! jittered samples, applies the gamma-2 square root and packs the result as
//! a 32-bit pixel in blue-green-red byte order.  Each of these is pinned
//! exactly to its spec mirror, so a whole frame is a function of the scene,
//! the options and the seed.

use vstd::prelude::*;

use crate::camera::{s_get_ray, Camera};
use crate::fixed::{fx, s_div as s_fxdiv, s_mul, s_sqrt, tdiv, Fx, LIM, SCALE};
use crate::hittable::{
    hit_world, lemma_world_hit_rec_ok, s_world_hit, world_mats_wf, world_wf, Hittables,
};
use crate::material::{lemma_scatter_ray_ok, s_scatter};
use crate::ray::Ray;
use crate::rng::{s_next, s_seed, s_unit_of, Rand64};
use crate::vec3::{
    lemma_vadd_ok, lemma_vsub_ok, s_normalize, s_scale, s_vadd, s_vdiv, s_vmul, s_vzero, Vec3,
};

verus! {

/// Recursion cap of the integrator: deeper paths are truncated to black.
pub const MAX_DEPTH: usize = 50;

/// Container for various render options.
#[derive(Clone, Copy, Debug, PartialEq, Eq, Structural)]
pub struct RenderOpts {
    /// image width
    pub width: usize,
    /// image height
    pub height: usize,
    /// samples per-pixel
    pub samples: usize,
}

impl RenderOpts {
    /// Dimensions and sample count are positive, and small enough that
    /// pixel coordinates and per-pixel sample sums stay inside the
    /// fixed-point band.
    pub open spec fn wf(self) -> bool {
        &&& 1 <= self.width <= 4096
        &&& 1 <= self.height <= 4096
        &&& 1 <= self.samples <= 4096
    }

    /// Runtime check of the same well-formedness.
    pub fn check(&self) -> (ok: bool)
        ensures
            ok == self.wf(),
    {
        1 <= self.width && self.width <= 4096 && 1 <= self.height && self.height <= 4096
            && 1 <= self.samples && self.samples <= 4096
    }
}

/// Lower end of every primary and scattered intersection query: a small
/// positive offset that avoids immediate re-self-intersection.
pub open spec fn s_eps() -> Fx {
    fx(tdiv(SCALE as int, 1000))
}

/// Upper end of every intersection query: the edge of the representable
/// band, this library's stand-in for infinity.
pub open spec fn s_t_inf() -> Fx {
    Fx { bits: LIM }
}

/// The fixed vertical background gradient: a lerp between white and
/// sky-blue by `0.5 * (unit_direction.y + 1)`.  With exact arithmetic that
/// parameter always lies in `[0, 1]`; the truncating fixed-point `normalize`
/// can overshoot the unit length on a degenerate near-zero direction, so the
/// parameter is clamped back into `[0, 1]` to keep the gradient a true
/// interpolation.
pub open spec fn s_background(r: Ray) -> Vec3 {
    let one = crate::fixed::s_one();
    let half = fx(tdiv(500 * SCALE, 1000));
    let unit_direction = s_normalize(r.b);
    let t_raw = s_mul(half, crate::fixed::s_add(unit_direction.y, one));
    let t = s_clamp_unit(t_raw);
    let white = Vec3 { x: one, y: one, z: one };
    let sky = Vec3 { x: half, y: fx(tdiv(700 * SCALE, 1000)), z: one };
    s_vadd(s_scale(white, crate::fixed::s_sub(one, t)), s_scale(sky, t))
}

/// A scalar clamped into the unit interval `[0, 1]`.
pub open spec fn s_clamp_unit(a: Fx) -> Fx {
    if a.v() < 0 {
        Fx { bits: 0 }
    } else if a.v() > SCALE as int {
        Fx { bits: SCALE }
    } else {
        a
    }
}

/// The background gradient is a true interpolation: every component lies in
/// the unit box.
pub proof fn lemma_background_unit_box(r: Ray)
    ensures
        crate::material::unit_box(s_background(r)),
{
    let one = crate::fixed::s_one();
    let half = fx(tdiv(500 * SCALE, 1000));
    let unit_direction = s_normalize(r.b);
    let t = s_clamp_unit(s_mul(half, crate::fixed::s_add(unit_direction.y, one)));
    let onemt = crate::fixed::s_sub(one, t);
    let white = Vec3 { x: one, y: one, z: one };
    let sky = Vec3 { x: half, y: fx(tdiv(700 * SCALE, 1000)), z: one };
    assert(0 <= onemt.v() <= SCALE as int - t.v());
    assert(sky.x.v() == 32768) by {
        assert(crate::fixed::iabs(500 * SCALE) == 32768000);
        assert(crate::fixed::iabs(1000) == 1000);
        assert(32768000int / 1000int == 32768);
    }
    assert(sky.y.v() == 45875) by {
        assert(crate::fixed::iabs(700 * SCALE) == 45875200);
        assert(crate::fixed::iabs(1000) == 1000);
        assert(45875200int / 1000int == 45875);
    }
    crate::fixed::lemma_mul_unit_bound(white.x, onemt, SCALE as int - t.v());
    crate::fixed::lemma_mul_unit_bound(white.y, onemt, SCALE as int - t.v());
    crate::fixed::lemma_mul_unit_bound(white.z, onemt, SCALE as int - t.v());
    crate::fixed::lemma_mul_unit_bound(sky.x, t, t.v());
    crate::fixed::lemma_mul_unit_bound(sky.y, t, t.v());
    crate::fixed::lemma_mul_unit_bound(sky.z, t, t.v());
}

/// What `color` returns and how it advances the sampling state: background
/// on a miss, black past the depth cap or on absorption, and otherwise the
/// attenuated color of the scattered ray.
pub open spec fn s_color(r: Ray, world: Seq<Hittables>, depth: nat, s: u64) -> (Vec3, u64)
    decreases MAX_DEPTH - depth,
{
    match s_world_hit(world, r, s_eps(), s_t_inf()) {
        Some(rec) => {
            if depth >= MAX_DEPTH {
                (s_vzero(), s)
            } else {
                let (sc, s2) = s_scatter(rec.material, r, rec.p, rec.normal, s);
                match sc {
                    Some(pair) => {
                        let (c2, s3) = s_color(pair.1, world, depth + 1, s2);
                        (s_vmul(pair.0, c2), s3)
                    },
                    None => (s_vzero(), s2),
                }
            }
        },
        None => (s_background(r), s),
    }
}

/// On a scene with no geometry the integrator returns exactly the background
/// gradient for every ray, at every depth, and leaves the sampling state
/// untouched.
pub proof fn lemma_color_background(r: Ray, world: Seq<Hittables>, depth: nat, s: u64)
    requires
        world.len() == 0,
    ensures
        s_color(r, world, depth, s) == (s_background(r), s),
{
}

/// Core ray-tracing method.  With well-formed materials the result is a
/// physical color: every component lies in `[0, 1]`.
pub fn color(r: &Ray, world: &Vec<Hittables>, depth: usize, rng: &mut Rand64) -> (c: Vec3)
    requires
        world_wf(world@),
        world_mats_wf(world@),
        r.ok(),
    ensures
        c == s_color(*r, world@, depth as nat, old(rng).state).0,
        final(rng).state == s_color(*r, world@, depth as nat, old(rng).state).1,
        crate::material::unit_box(c),
        world@.len() == 0 ==> c == s_background(*r) && final(rng).state == old(rng).state,
    decreases MAX_DEPTH - depth,
{
    let eps = Fx::from_thousandths(1);
    let t_inf = Fx::from_bits(LIM);
    match hit_world(world, r, eps, t_inf) {
        Some(rec) => {
            if depth >= MAX_DEPTH {
                return Vec3::zero();
            }
            proof {
                lemma_world_hit_rec_ok(world@, *r, eps, t_inf, world@.len());
                lemma_scatter_ray_ok(rec.material, *r, rec.p, rec.normal, rng.state);
            }
            match rec.material.scatter(r, &rec, rng) {
                Some((attenuation, scattered)) => {
                    let c2 = color(&scattered, world, depth + 1, rng);
                    proof {
                        crate::fixed::lemma_mul_unit_bound(attenuation.x, c2.x, SCALE as int);
                        crate::fixed::lemma_mul_unit_bound(attenuation.y, c2.y, SCALE as int);
                        crate::fixed::lemma_mul_unit_bound(attenuation.z, c2.z, SCALE as int);
                    }
                    attenuation.vmul(c2)
                },
                None => Vec3::zero(),
            }
        },
        None => {
            proof {
                lemma_background_unit_box(*r);
            }
            let one = Fx::one();
            let half = Fx::from_thousandths(500);
            let unit_direction = r.direction().normalize();
            let t_raw = half.mul(unit_direction.y.add(one));
            let t = if t_raw.bits < 0 {
                Fx::zero()
            } else if t_raw.bits > SCALE {
                Fx::one()
            } else {
                t_raw
            };
            let white = Vec3::new(one, one, one);
            let sky = Vec3::new(half, Fx::from_thousandths(700), one);
            white.scale(one.sub(t)).vadd(sky.scale(t))
        },
    }
}

/// The byte a color component quantizes to: the integer part of the scaled
/// component, clamped to `[0, 255]`.
pub open spec fn s_byte_of(a: Fx) -> int {
    let q = tdiv(a.v(), SCALE as int);
    if q < 0 {
        0
    } else if q > 255 {
        255
    } else {
        q
    }
}

/// The scale factor `255.99` that maps `[0, 1]` onto bytes without reaching
/// 256.
pub open spec fn s_c255() -> Fx {
    fx(tdiv(255990 * SCALE, 1000))
}

/// The packed 32-bit pixel for a color: byte 0 blue, byte 1 green, byte 2
/// red, byte 3 zero.
pub open spec fn s_as_color(v: Vec3) -> int {
    let w = s_scale(v, s_c255());
    s_byte_of(w.z) + 256 * s_byte_of(w.y) + 65536 * s_byte_of(w.x)
}

fn byte_of(a: Fx) -> (b: u8)
    ensures
        b as int == s_byte_of(a),
{
    if a.bits <= 0 {
        return 0;
    }
    let q = (a.bits as u64) / (SCALE as u64);
    if q >= 255 {
        255
    } else {
        q as u8
    }
}

impl Vec3 {
    /// This color as a packed 32-bit pixel value, blue in the lowest byte.
    pub fn as_color(self) -> (px: u32)
        ensures
            px as int == s_as_color(self),
    {
        let w = self.scale(Fx::from_thousandths(255990));
        let bz = byte_of(w.z);
        let by = byte_of(w.y);
        let bx = byte_of(w.x);
        (bz as u32) + 256 * (by as u32) + 65536 * (bx as u32)
    }
}

/// The sum of the first `k` jittered samples of a pixel, with the sampling
/// state threaded through jitter, lens and path in order.
pub open spec fn s_sample_sum(
    k: nat,
    x_fx: Fx,
    y_fx: Fx,
    w_fx: Fx,
    h_fx: Fx,
    cam: Camera,
    world: Seq<Hittables>,
    s: u64,
) -> (Vec3, u64)
    decreases k,
{
    if k == 0 {
        (s_vzero(), s)
    } else {
        let (acc, s0) = s_sample_sum((k - 1) as nat, x_fx, y_fx, w_fx, h_fx, cam, world, s);
        let s1 = s_next(s0);
        let su = s_unit_of(s1);
        let s2 = s_next(s1);
        let sv = s_unit_of(s2);
        let u = s_fxdiv(crate::fixed::s_add(x_fx, su), w_fx);
        let v = s_fxdiv(crate::fixed::s_add(y_fx, sv), h_fx);
        let (ray, s3) = s_get_ray(cam, u, v, s2);
        let (c, s4) = s_color(ray, world, 0, s3);
        (s_vadd(acc, c), s4)
    }
}

/// What `render_pixel` returns for image coordinates `(x, y)`: the averaged
/// sample sum, gamma-corrected and packed.  The vertical coordinate is
/// flipped (`height - y`) so that the viewport's `v` grows upward while
/// buffer rows grow downward.
#[verifier::opaque]
pub open spec fn s_render_pixel(
    x: int,
    y: int,
    opts: RenderOpts,
    cam: Camera,
    world: Seq<Hittables>,
    s: u64,
) -> (u32, u64) {
    let x_fx = fx(x * SCALE);
    let y_fx = fx((opts.height - y) * SCALE);
    let w_fx = fx(opts.width * SCALE);
    let h_fx = fx(opts.height * SCALE);
    let (sum, s2) = s_sample_sum(opts.samples as nat, x_fx, y_fx, w_fx, h_fx, cam, world, s);
    let avg = s_vdiv(sum, fx(opts.samples * SCALE));
    let gamma = Vec3 { x: s_sqrt(avg.x), y: s_sqrt(avg.y), z: s_sqrt(avg.z) };
    ((s_as_color(gamma)) as u32, s2)
}

/// Core per-pixel render method, shared between the blocking and the
/// progressive drivers.
pub fn render_pixel(
    rng: &mut Rand64,
    x: usize,
    y: usize,
    opts: &RenderOpts,
    cam: &Camera,
    world: &Vec<Hittables>,
) -> (px: u32)
    requires
        opts.wf(),
        x < opts.width,
        y < opts.height,
        world_wf(world@),
        world_mats_wf(world@),
    ensures
        px == s_render_pixel(x as int, y as int, *opts, *cam, world@, old(rng).state).0,
        final(rng).state == s_render_pixel(x as int, y as int, *opts, *cam, world@, old(
            rng,
        ).state).1,
{
    proof {
        reveal(s_render_pixel);
    }
    let x_fx = Fx::from_int(x as i64);
    let yy = opts.height - y;
    let y_fx = Fx::from_int(yy as i64);
    let w_fx = Fx::from_int(opts.width as i64);
    let h_fx = Fx::from_int(opts.height as i64);
    let ghost s0 = rng.state;
    let mut acc = Vec3::zero();
    let mut k: usize = 0;
    while k < opts.samples
        invariant
            opts.wf(),
            world_wf(world@),
            world_mats_wf(world@),
            k <= opts.samples,
            x_fx == fx(x * SCALE),
            y_fx == fx((opts.height - y) * SCALE),
            w_fx == fx(opts.width * SCALE),
            h_fx == fx(opts.height * SCALE),
            x < opts.width,
            y < opts.height,
            (acc, rng.state) == s_sample_sum(
                k as nat,
                x_fx,
                y_fx,
                w_fx,
                h_fx,
                *cam,
                world@,
                s0,
            ),
        decreases opts.samples - k,
    {
        let su = rng.next_unit();
        let sv = rng.next_unit();
        let u = x_fx.add(su).div(w_fx);
        let v = y_fx.add(sv).div(h_fx);
        let ghost s_before = rng.state;
        let ray = cam.get_ray(u, v, rng);
        proof {
            let disk = crate::rng::s_rand_in_unit_circle(
                s_before,
                crate::rng::REJECT_TRIES as nat,
            ).0;
            let rd = s_scale(disk, cam.lens_radius);
            let offset = s_vadd(s_scale(cam.u, rd.x), s_scale(cam.v, rd.y));
            lemma_vadd_ok(cam.origin, offset);
            lemma_vsub_ok(
                s_vadd(
                    s_vadd(cam.lower_left_corner, s_scale(cam.horizontal, u)),
                    s_scale(cam.vertical, v),
                ),
                s_vadd(cam.origin, offset),
            );
            assert(ray.a.ok() && ray.b.ok());
        }
        let c = color(&ray, world, 0, rng);
        acc = acc.vadd(c);
        k = k + 1;
    }
    let avg = acc.vdiv(Fx::from_int(opts.samples as i64));
    let gamma = Vec3::new(avg.x.sqrt(), avg.y.sqrt(), avg.z.sqrt());
    gamma.as_color()
}

/// The pixels of the linear index range `[start, start + n)`, rendered in
/// order with one sampling state threaded through all of them.
pub open spec fn s_render_seq(
    n: nat,
    start: int,
    opts: RenderOpts,
    cam: Camera,
    world: Seq<Hittables>,
    s: u64,
) -> (Seq<u32>, u64)
    decreases n,
{
    if n == 0 {
        (Seq::empty(), s)
    } else {
        let (prefix, s1) = s_render_seq((n - 1) as nat, start, opts, cam, world, s);
        let idx = start + n - 1;
        let (px, s2) = s_render_pixel(
            idx % (opts.width as int),
            idx / (opts.width as int),
            opts,
            cam,
            world,
            s1,
        );
        (prefix.push(px), s2)
    }
}

/// Render the pixels with linear indices in `[start, end)` (row-major,
/// `index = y * width + x`) into a fresh buffer.
pub fn render_range(
    cam: &Camera,
    world: &Vec<Hittables>,
    opts: &RenderOpts,
    start: usize,
    end: usize,
    rng: &mut Rand64,
) -> (out: Vec<u32>)
    requires
        opts.wf(),
        world_wf(world@),
        world_mats_wf(world@),
        start <= end,
        end <= opts.width * opts.height,
    ensures
        out@ == s_render_seq(
            (end - start) as nat,
            start as int,
            *opts,
            *cam,
            world@,
            old(rng).state,
        ).0,
        final(rng).state == s_render_seq(
            (end - start) as nat,
            start as int,
            *opts,
            *cam,
            world@,
            old(rng).state,
        ).1,
        out@.len() == end - start,
{
    let ghost s0 = rng.state;
    let mut out: Vec<u32> = Vec::new();
    let mut i: usize = start;
    while i < end
        invariant
            opts.wf(),
            world_wf(world@),
            world_mats_wf(world@),
            start <= i <= end,
            end <= opts.width * opts.height,
            out@.len() == i - start,
            (out@, rng.state) == s_render_seq(
                (i - start) as nat,
                start as int,
                *opts,
                *cam,
                world@,
                s0,
            ),
        decreases end - i,
    {
        let x = i % opts.width;
        let y = i / opts.width;
        proof {
            assert(y < opts.height) by (nonlinear_arith)
                requires
                    y == i as int / opts.width as int,
                    i < opts.width * opts.height,
                    opts.width >= 1,
                    opts.height >= 1,
            ;
        }
        let px = render_pixel(rng, x, y, opts, cam, world);
        out.push(px);
        i = i + 1;
    }
    out
}

/// Synchronously render the whole scene into `buffer`, replacing its
/// contents with the full row-major frame; the seed pins every pixel, so a
/// repeated call with equal inputs reproduces the image exactly.
pub fn trace_some_rays_blocking(
    buffer: &mut Vec<u32>,
    world: &Vec<Hittables>,
    camera: Camera,
    opts: RenderOpts,
    seed: u64,
) -> (done: bool)
    ensures
        done == (opts.wf() && world_wf(world@) && world_mats_wf(world@)),
        done ==> final(buffer)@ == s_render_seq(
            (opts.width * opts.height) as nat,
            0,
            opts,
            camera,
            world@,
            s_seed(seed),
        ).0 && final(buffer)@.len() == opts.width * opts.height,
        !done ==> final(buffer)@ == old(buffer)@,
{
    if !opts.check() {
        return false;
    }
    if !check_world(world) {
        return false;
    }
    let mut rng = Rand64::from_seed(seed);
    proof {
        assert(opts.width * opts.height <= 4096 * 4096) by (nonlinear_arith)
            requires
                1 <= opts.width <= 4096,
                1 <= opts.height <= 4096,
        ;
    }
    let n = opts.width * opts.height;
    let out = render_range(&camera, world, &opts, 0, n, &mut rng);
    *buffer = out;
    true
}

/// Runtime check that every shape of the world lies in the representable
/// band and every material is well-formed.
pub fn check_world(world: &Vec<Hittables>) -> (ok: bool)
    ensures
        ok == (world_wf(world@) && world_mats_wf(world@)),
{
    let mut i: usize = 0;
    while i < world.len()
        invariant
            i <= world@.len(),
            forall|j: int| 0 <= j < i as int ==> (#[trigger] world@[j]).wf(),
            forall|j: int| 0 <= j < i as int ==> (#[trigger] world@[j]).material().wf(),
        decreases world@.len() - i,
    {
        let g = world[i];
        let ok = match g {
            Hittables::Sphere(s) => in_band(s.center.x) && in_band(s.center.y) && in_band(
                s.center.z,
            ) && in_band(s.radius) && s.material.check(),
            Hittables::InfPlane(pl) => in_band(pl.center.x) && in_band(pl.center.y) && in_band(
                pl.center.z,
            ) && in_band(pl.normal.x) && in_band(pl.normal.y) && in_band(pl.normal.z)
                && pl.material.check(),
        };
        if !ok {
            return false;
        }
        i = i + 1;
    }
    true
}

/// Runtime check of a scalar's band membership.
fn in_band(a: Fx) -> (ok: bool)
    ensures
        ok == a.ok(),
{
    -LIM <= a.bits && a.bits <= LIM
}

} // verus!
