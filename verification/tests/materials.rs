//! Scattering behaviour of the four materials.

use raytrace::fixed::{Fx, SCALE};
use raytrace::hittable::HitRecord;
use raytrace::material::{Dielectric, Lambertian, Metal, Void};
use raytrace::ray::Ray;
use raytrace::rng::Rand64;
use raytrace::vec3::Vec3;

fn vec_i(x: i64, y: i64, z: i64) -> Vec3 {
    Vec3::new(Fx::from_int(x), Fx::from_int(y), Fx::from_int(z))
}

fn record_at_origin(material: raytrace::material::Material) -> HitRecord {
    HitRecord { t: Fx::zero(), p: vec_i(0, 0, 0), normal: vec_i(0, 1, 0), material }
}

/// Lambertian surfaces always scatter, with their albedo as attenuation and
/// the hit point as the new origin.
#[test]
fn lambertian_always_scatters() {
    let albedo = Vec3::new(
        Fx::from_thousandths(800),
        Fx::from_thousandths(300),
        Fx::from_thousandths(300),
    );
    let m = Lambertian::new_material(albedo);
    let rec = record_at_origin(m);
    let ray = Ray::new(vec_i(0, 3, 0), vec_i(0, -1, 0));
    for seed in 1..50u64 {
        let mut rng = Rand64::from_seed(seed);
        let (attenuation, scattered) = m.scatter(&ray, &rec, &mut rng).unwrap();
        assert_eq!(attenuation, albedo);
        assert_eq!(scattered.origin(), rec.p);
    }
}

/// Dielectric surfaces always scatter, with no absorption at all.
#[test]
fn dielectric_always_scatters() {
    let m = Dielectric::new_material(Fx::from_thousandths(1500));
    let rec = record_at_origin(m);
    let ones = vec_i(1, 1, 1);
    for seed in 1..50u64 {
        let mut rng = Rand64::from_seed(seed);
        // both entering and exiting directions
        for dir in [vec_i(0, -1, 0), vec_i(0, 1, 0), vec_i(1, -2, 0)] {
            let ray = Ray::new(vec_i(0, 3, 0), dir);
            let (attenuation, scattered) = m.scatter(&ray, &rec, &mut rng).unwrap();
            assert_eq!(attenuation, ones);
            assert_eq!(scattered.origin(), rec.p);
        }
    }
}

/// Void absorbs every ray.
#[test]
fn void_never_scatters() {
    let m = Void::new_material();
    let rec = record_at_origin(m);
    let ray = Ray::new(vec_i(0, 3, 0), vec_i(0, -1, 0));
    let mut rng = Rand64::from_seed(7);
    assert!(m.scatter(&ray, &rec, &mut rng).is_none());
}

/// Metal reflects a head-on ray back out (the reflected direction leaves
/// the surface), but absorbs a ray whose mirror image points into it.
#[test]
fn metal_absorbs_exactly_the_inward_reflections() {
    let m = Metal::new_material(vec_i(1, 1, 1), Fx::zero());
    let rec = record_at_origin(m);
    let mut rng = Rand64::from_seed(11);

    // incoming against the normal: mirror direction leaves the surface
    let incoming = Ray::new(vec_i(0, 3, 0), vec_i(0, -1, 0));
    let (_, scattered) = m.scatter(&incoming, &rec, &mut rng).unwrap();
    assert_eq!(scattered.direction(), vec_i(0, 1, 0));
    assert!(scattered.direction().dot(&rec.normal).bits > 0);

    // incoming along the normal: the mirror image points into the surface
    let behind = Ray::new(vec_i(0, -3, 0), vec_i(0, 1, 0));
    assert!(m.scatter(&behind, &rec, &mut rng).is_none());
}

/// With fuzz, the perturbation stays within a unit ball scaled by the fuzz
/// factor, so a steep reflection still leaves the surface.
#[test]
fn fuzzy_metal_keeps_steep_reflections() {
    let m = Metal::new_material(vec_i(1, 1, 1), Fx::from_thousandths(250));
    let rec = record_at_origin(m);
    let incoming = Ray::new(vec_i(0, 3, 0), vec_i(0, -1, 0));
    for seed in 1..50u64 {
        let mut rng = Rand64::from_seed(seed);
        let (_, scattered) = m.scatter(&incoming, &rec, &mut rng).unwrap();
        // dot >= 1 - 0.25, far above zero
        assert!(scattered.direction().dot(&rec.normal).bits > (SCALE / 2));
    }
}
