//! The path integrator's terminal cases, pixel packing, and the end-to-end
//! deterministic render.

use raytrace::camera::{Camera, CameraOpts};
use raytrace::fixed::Fx;
use raytrace::hittable::{Hittables, Sphere};
use raytrace::material::{Lambertian, Void};
use raytrace::ray::Ray;
use raytrace::render::{color, trace_some_rays_blocking, RenderOpts};
use raytrace::rng::Rand64;
use raytrace::scenes::{Chapter, Random};
use raytrace::vec3::Vec3;

fn vec_i(x: i64, y: i64, z: i64) -> Vec3 {
    Vec3::new(Fx::from_int(x), Fx::from_int(y), Fx::from_int(z))
}

/// With no geometry the integrator returns exactly the background gradient:
/// sky-blue straight up, white straight down.
#[test]
fn empty_world_gives_the_background_gradient() {
    let world: Vec<Hittables> = Vec::new();
    let mut rng = Rand64::from_seed(1);

    let up = Ray::new(vec_i(0, 0, 0), vec_i(0, 1, 0));
    let c = color(&up, &world, 0, &mut rng);
    assert_eq!(c.x, Fx::from_thousandths(500));
    assert_eq!(c.y, Fx::from_thousandths(700));
    assert_eq!(c.z, Fx::one());

    let down = Ray::new(vec_i(0, 0, 0), vec_i(0, -1, 0));
    let c = color(&down, &world, 0, &mut rng);
    assert_eq!(c.x, Fx::one());
    assert_eq!(c.y, Fx::one());
    assert_eq!(c.z, Fx::one());
}

/// A black absorber swallows the ray: the first bounce already ends the
/// path with black.
#[test]
fn absorbing_material_gives_black() {
    let world = vec![Sphere::new_hittable(
        vec_i(0, 0, -2),
        Fx::one(),
        Void::new_material(),
    )];
    let mut rng = Rand64::from_seed(1);
    let ray = Ray::new(vec_i(0, 0, 0), vec_i(0, 0, -1));
    let c = color(&ray, &world, 0, &mut rng);
    assert_eq!(c, vec_i(0, 0, 0));
}

/// At the depth cap a hit is truncated to black instead of recursing.
#[test]
fn depth_cap_truncates_to_black() {
    let world = vec![Sphere::new_hittable(
        vec_i(0, 0, -2),
        Fx::one(),
        Lambertian::new_material(vec_i(1, 1, 1)),
    )];
    let mut rng = Rand64::from_seed(1);
    let ray = Ray::new(vec_i(0, 0, 0), vec_i(0, 0, -1));
    let c = color(&ray, &world, 50, &mut rng);
    assert_eq!(c, vec_i(0, 0, 0));
}

/// Packing order: byte 0 blue, byte 1 green, byte 2 red, byte 3 zero.
#[test]
fn pixel_packing_is_bgr_little_endian() {
    assert_eq!(vec_i(1, 1, 1).as_color(), 0x00FF_FFFF);
    assert_eq!(vec_i(0, 0, 0).as_color(), 0);
    assert_eq!(vec_i(1, 0, 0).as_color(), 0x00FF_0000);
    assert_eq!(vec_i(0, 1, 0).as_color(), 0x0000_FF00);
    assert_eq!(vec_i(0, 0, 1).as_color(), 0x0000_00FF);
    // over-bright components clamp instead of wrapping
    assert_eq!(vec_i(7, 7, 7).as_color(), 0x00FF_FFFF);
    assert_eq!(
        Vec3::new(Fx::from_int(-1), Fx::zero(), Fx::zero()).as_color(),
        0
    );
}

fn single_sphere_camera() -> Camera {
    Camera::new(CameraOpts {
        origin: vec_i(0, 0, 0),
        direction: vec_i(0, 0, 1),
        vup: vec_i(0, 1, 0),
        half_width: Fx::one(),
        aspect: Fx::one(),
        aperture: Fx::zero(),
        focus_dist: Fx::one(),
    })
}

/// End-to-end: a single-sphere scene rendered at 2x2 pixels with one sample
/// per pixel and a fixed seed reproduces the same pixel values across runs.
#[test]
fn fixed_seed_renders_are_reproducible() {
    let world = vec![Sphere::new_hittable(
        Vec3::new(Fx::zero(), Fx::zero(), Fx::from_int(-1)),
        Fx::from_thousandths(500),
        Lambertian::new_material(Vec3::new(
            Fx::from_thousandths(800),
            Fx::from_thousandths(300),
            Fx::from_thousandths(300),
        )),
    )];
    let camera = single_sphere_camera();
    let opts = RenderOpts { width: 2, height: 2, samples: 1 };

    let mut first: Vec<u32> = Vec::new();
    assert!(trace_some_rays_blocking(&mut first, &world, camera, opts, 42));
    assert_eq!(first.len(), 4);

    let mut second: Vec<u32> = Vec::new();
    assert!(trace_some_rays_blocking(&mut second, &world, camera, opts, 42));
    assert_eq!(first, second);
}

/// Degenerate render options are rejected up front and leave the buffer
/// untouched.
#[test]
fn zero_sized_frames_are_rejected() {
    let world: Vec<Hittables> = Vec::new();
    let camera = single_sphere_camera();
    let mut buffer = vec![5u32; 3];
    let bad = RenderOpts { width: 0, height: 2, samples: 1 };
    assert!(!trace_some_rays_blocking(&mut buffer, &world, camera, bad, 1));
    assert_eq!(buffer, vec![5, 5, 5]);
    let bad2 = RenderOpts { width: 2, height: 2, samples: 0 };
    assert!(!trace_some_rays_blocking(&mut buffer, &world, camera, bad2, 1));
    assert_eq!(buffer, vec![5, 5, 5]);
}

/// Even a degenerate near-zero direction, where the truncating normalize
/// overshoots the unit length, yields a physical color: the gradient
/// parameter is clamped, so every component stays in [0, 1].
#[test]
fn degenerate_directions_still_give_physical_colors() {
    let world: Vec<Hittables> = Vec::new();
    let mut rng = Rand64::from_seed(1);
    let tiny = Ray::new(
        vec_i(0, 0, 0),
        Vec3::new(Fx::zero(), Fx::from_bits(190), Fx::zero()),
    );
    let c = color(&tiny, &world, 0, &mut rng);
    for comp in [c.x, c.y, c.z] {
        assert!(0 <= comp.bits && comp.bits <= 65536);
    }
}

/// The size band of usable render options: positive, at most 4096.
#[test]
fn option_bounds_are_sharp() {
    assert!(RenderOpts { width: 4096, height: 4096, samples: 4096 }.check());
    assert!(RenderOpts { width: 1, height: 1, samples: 1 }.check());
    assert!(!RenderOpts { width: 4097, height: 1, samples: 1 }.check());
    assert!(!RenderOpts { width: 1, height: 4097, samples: 1 }.check());
    assert!(!RenderOpts { width: 1, height: 1, samples: 4097 }.check());
    assert!(!RenderOpts { width: 0, height: 1, samples: 1 }.check());
}

/// The ready-made scenes come out well-formed and the right size.
#[test]
fn prebuilt_scenes_have_their_shapes() {
    let chapter = Chapter::new();
    assert_eq!(chapter.get_world().len(), 6);

    let mut rng = Rand64::from_seed(3);
    let random = Random::new(&mut rng);
    assert_eq!(random.get_world().len(), 488);
    assert!(matches!(random.get_world()[0], Hittables::InfPlane(_)));
    // every grid sphere sits at the fixed height with the fixed radius
    let fifth = Fx::from_thousandths(200);
    for i in 1..485 {
        match random.get_world()[i] {
            Hittables::Sphere(s) => {
                assert_eq!(s.radius, fifth);
                assert_eq!(s.center.y, fifth);
            },
            _ => panic!("grid entries should be spheres"),
        }
    }
    // the three feature spheres close the list
    match random.get_world()[487] {
        Hittables::Sphere(s) => assert_eq!(s.center, vec_i(4, 1, 0)),
        _ => panic!("the last shape should be a sphere"),
    }
}

/// The animation hook moves only the first sphere's horizontal position.
#[test]
fn animate_oscillates_the_first_sphere() {
    let mut chapter = Chapter::new();
    let x = Fx::from_thousandths(250);
    chapter.animate(x);
    match chapter.get_world()[0] {
        Hittables::Sphere(s) => assert_eq!(s.center.x, x),
        _ => panic!("first shape should be a sphere"),
    }
}
